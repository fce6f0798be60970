//! Facts about byte offsets into UTF-8 text, shared by the modules that
//! slice their input by byte ranges.
use vstd::prelude::*;
use vstd::utf8::*;
use vstd::string::StringSliceAdditionalSpecFns;

verus! {

broadcast use vstd::utf8::group_utf8_lib;

/// The bytes of a string, in the encoding Rust stores it in.
pub open spec fn bytes_of(s: Seq<char>) -> Seq<u8> {
    encode_utf8(s)
}

/// `i .. j` is a range of whole characters inside `b`.
pub open spec fn is_char_range(b: Seq<u8>, i: int, j: int) -> bool {
    &&& 0 <= i <= j <= b.len()
    &&& is_char_boundary(b, i)
    &&& is_char_boundary(b, j)
}

/// A boundary that lies before the end of a prefix is also a boundary of that prefix.
pub proof fn lemma_boundary_in_prefix(b: Seq<u8>, i: int, j: int)
    requires
        valid_utf8(b),
        is_char_range(b, i, j),
    ensures
        valid_utf8(b.subrange(0, j)),
        is_char_boundary(b.subrange(0, j), i),
{
    valid_utf8_split(b, j);
    let p = b.subrange(0, j);
    is_char_boundary_start_end_of_seq(p);
    if i < j {
        is_char_boundary_iff_not_is_continuation_byte(b, i);
        is_char_boundary_iff_not_is_continuation_byte(p, i);
    }
}

/// The position right after an ASCII byte is a character boundary.
pub proof fn lemma_boundary_after_ascii(b: Seq<u8>, i: int)
    requires
        valid_utf8(b),
        0 <= i < b.len(),
        b[i] < 0x80,
    ensures
        is_char_boundary(b, i + 1),
    decreases b.len(),
{
    reveal_with_fuel(is_char_boundary, 2);
    let l0 = length_of_first_scalar(b);
    let rest = pop_first_scalar(b);
    assert(valid_first_scalar(b) && valid_utf8(rest));
    assert(1 <= l0 <= 4 && l0 <= b.len());
    assert(rest.len() == b.len() - l0);
    if i == 0 {
        assert(l0 == 1);
    } else {
        if i < l0 {
            assert(is_continuation_byte(b[i]));
            assert(false);
        }
        assert(rest[i - l0] == b[i]);
        lemma_boundary_after_ascii(rest, i - l0);
    }
}

/// The characters of a string are the characters its bytes decode to.
pub proof fn lemma_bytes_decode(s: Seq<char>)
    ensures
        valid_utf8(bytes_of(s)),
        decode_utf8(bytes_of(s)) == s,
{
    encode_utf8_valid_utf8(s);
    encode_utf8_decode_utf8(s);
}

/// Copies the characters between two byte offsets of `s`.
pub fn byte_slice(s: &str, i: usize, j: usize) -> (r: String)
    requires
        is_char_range(s.spec_bytes(), i as int, j as int),
    ensures
        bytes_of(r@) == s.spec_bytes().subrange(i as int, j as int),
{
    proof {
        encode_utf8_valid_utf8(s@);
        lemma_boundary_in_prefix(s.spec_bytes(), i as int, j as int);
    }
    let (head, _tail) = s.split_at(j);
    let (_pre, mid) = head.split_at(i);
    assert(mid.spec_bytes() =~= s.spec_bytes().subrange(i as int, j as int));
    mid.to_owned()
}

/// Whether `i .. j` is a range of whole characters of `s`.
pub fn char_range_ok(s: &str, i: usize, j: usize) -> (r: bool)
    ensures
        r == is_char_range(bytes_of(s@), i as int, j as int),
{
    let b = s.as_bytes();
    proof {
        lemma_bytes_decode(s@);
        is_char_boundary_start_end_of_seq(b@);
    }
    assert(b@ == bytes_of(s@));
    if i > j || j > b.len() {
        return false;
    }
    let ok_j = if j == b.len() {
        true
    } else {
        proof {
            is_char_boundary_iff_not_is_continuation_byte(b@, j as int);
        }
        !(0x80 <= b[j] && b[j] <= 0xbf)
    };
    let ok_i = if i == b.len() {
        true
    } else {
        proof {
            is_char_boundary_iff_not_is_continuation_byte(b@, i as int);
        }
        !(0x80 <= b[i] && b[i] <= 0xbf)
    };
    ok_i && ok_j
}

/// Joins two texts.
pub fn concat(a: &str, b: &str) -> (r: String)
    ensures
        r@ == a@ + b@,
{
    let mut s = a.to_owned();
    s.append(b);
    s
}

/// Whether two strings hold the same characters.
pub fn str_is(a: &str, b: &str) -> (r: bool)
    ensures
        r == (a@ == b@),
{
    let x = a.as_bytes();
    let y = b.as_bytes();
    proof {
        lemma_bytes_decode(a@);
        lemma_bytes_decode(b@);
    }
    if x.len() != y.len() {
        return false;
    }
    let mut i: usize = 0;
    while i < x.len()
        invariant
            x.len() == y.len(),
            i <= x.len(),
            x@ == bytes_of(a@),
            y@ == bytes_of(b@),
            x@.subrange(0, i as int) == y@.subrange(0, i as int),
        decreases x.len() - i,
    {
        if x[i] != y[i] {
            assert(x@[i as int] != y@[i as int]);
            return false;
        }
        assert(x@.subrange(0, i + 1) =~= x@.subrange(0, i as int).push(x@[i as int]));
        assert(y@.subrange(0, i + 1) =~= y@.subrange(0, i as int).push(y@[i as int]));
        i = i + 1;
    }
    assert(x@ =~= x@.subrange(0, i as int));
    assert(y@ =~= y@.subrange(0, i as int));
    true
}

} // verus!
