//! File-system helpers that do not touch the file system: permission bits
//! written in octal, where a seek goes, and which attributes of a file a
//! `lfs.attributes` call reports.
use vstd::prelude::*;
use vstd::string::StringSliceAdditionalSpecFns;
use crate::text::{bytes_of, concat, lemma_bytes_decode, str_is};

verus! {

pub open spec fn is_octal_digit(c: u8) -> bool {
    0x30 <= c <= 0x37
}

pub open spec fn all_octal(d: Seq<u8>) -> bool {
    forall|i: int| 0 <= i < d.len() ==> is_octal_digit(#[trigger] d[i])
}

/// The number written by the octal digits `d`.
pub open spec fn octal_value(d: Seq<u8>) -> int
    decreases d.len(),
{
    if d.len() == 0 {
        0
    } else {
        octal_value(d.drop_last()) * 8 + (d.last() - 0x30)
    }
}

/// The characters of a number after a leading `+`, if it has one.
pub open spec fn after_plus(b: Seq<u8>) -> Seq<u8> {
    if b.len() > 0 && b[0] == 0x2b { b.drop_first() } else { b }
}

/// The mode an octal text spells, the way `u32::from_str_radix(_, 8)`
/// reads it: an optional `+`, then one or more octal digits, with the value
/// fitting a `u32`.
pub open spec fn spelled_mode(b: Seq<u8>) -> Option<u32> {
    if after_plus(b).len() == 0 || !all_octal(after_plus(b)) {
        None
    } else if octal_value(after_plus(b)) <= u32::MAX {
        Some(octal_value(after_plus(b)) as u32)
    } else {
        None
    }
}

proof fn lemma_octal_value_nonneg(d: Seq<u8>)
    requires
        all_octal(d),
    ensures
        octal_value(d) >= 0,
    decreases d.len(),
{
    if d.len() > 0 {
        lemma_octal_value_nonneg(d.drop_last());
    }
}

/// Reads permission bits written in octal, as `chmod` takes them.
pub fn parse_octal_mode(s: &str) -> (r: Option<u32>)
    ensures
        r == spelled_mode(bytes_of(s@)),
{
    let b = s.as_bytes();
    proof {
        lemma_bytes_decode(s@);
    }
    let ghost bv = b@;
    assert(bv == bytes_of(s@));
    let first: usize = if b.len() > 0 && b[0] == 0x2b { 1 } else { 0 };
    let ghost d = after_plus(bv);
    assert(d =~= bv.subrange(first as int, bv.len() as int));
    if first == b.len() {
        return None;
    }
    let mut acc: u32 = 0;
    let mut overflow = false;
    let mut i: usize = first;
    while i < b.len()
        invariant
            first <= i <= b.len(),
            b@ == bv,
            bv == bytes_of(s@),
            d == after_plus(bv),
            d == bv.subrange(first as int, bv.len() as int),
            forall|k: int| 0 <= k < i - first ==> is_octal_digit(#[trigger] d[k]),
            !overflow ==> acc == octal_value(d.subrange(0, i - first)),
            overflow ==> octal_value(d.subrange(0, i - first)) > u32::MAX,
        decreases b.len() - i,
    {
        let c = b[i];
        if c < 0x30 || c > 0x37 {
            assert(d[i - first] == c);
            assert(!all_octal(d));
            return None;
        }
        assert(d.subrange(0, i + 1 - first).drop_last() =~= d.subrange(0, i - first));
        assert(d.subrange(0, i + 1 - first).last() == c);
        proof {
            lemma_octal_value_nonneg(d.subrange(0, i - first));
        }
        let digit = (c - 0x30) as u32;
        if !overflow {
            if acc > (u32::MAX - digit) / 8 {
                overflow = true;
                assert(acc * 8 + digit > u32::MAX) by (nonlinear_arith)
                    requires
                        acc > (u32::MAX - digit) / 8,
                        digit <= 7,
                ;
            } else {
                assert(acc * 8 + digit <= u32::MAX) by (nonlinear_arith)
                    requires
                        acc <= (u32::MAX - digit) / 8,
                        digit <= 7,
                ;
                acc = acc * 8 + digit;
            }
        } else {
            assert(octal_value(d.subrange(0, i - first)) * 8 > u32::MAX) by (nonlinear_arith)
                requires
                    octal_value(d.subrange(0, i - first)) > u32::MAX,
            ;
        }
        i = i + 1;
    }
    assert(d.subrange(0, i - first) =~= d);
    if overflow {
        None
    } else {
        Some(acc)
    }
}

/// The octal digits of `m`, most significant first, with no leading zeros
/// (`0` is written as one zero).
pub open spec fn octal_digits(m: nat) -> Seq<u8>
    decreases m,
{
    if m < 8 {
        seq![(m + 0x30) as u8]
    } else {
        octal_digits(m / 8).push(((m % 8) + 0x30) as u8)
    }
}

proof fn lemma_octal_digits_read_back(m: nat)
    ensures
        all_octal(octal_digits(m)),
        octal_value(octal_digits(m)) == m,
        octal_digits(m).len() > 0,
        octal_digits(m)[0] != 0x2b,
    decreases m,
{
    if m >= 8 {
        lemma_octal_digits_read_back(m / 8);
        let p = octal_digits(m / 8);
        let q = p.push(((m % 8) + 0x30) as u8);
        assert(q.drop_last() =~= p);
        assert(q.last() - 0x30 == m % 8);
        assert((m / 8) * 8 + m % 8 == m) by (nonlinear_arith);
        assert(octal_digits(m) == q);
        assert(octal_value(q) == octal_value(p) * 8 + (q.last() - 0x30));
        assert forall|i: int| 0 <= i < q.len() implies is_octal_digit(#[trigger] q[i]) by {
            if i < p.len() {
                assert(q[i] == p[i]);
            }
        }
    } else {
        let q = octal_digits(m);
        assert(q.drop_last() =~= Seq::<u8>::empty());
        assert(q.last() - 0x30 == m);
        assert(octal_value(q) == octal_value(q.drop_last()) * 8 + (q.last() - 0x30));
        assert(octal_value(Seq::<u8>::empty()) == 0);
    }
}

/// The characters of `m` written in octal.
pub open spec fn octal_chars(m: nat) -> Seq<char> {
    octal_digits(m).map_values(|b: u8| b as char)
}

/// The one-character text of an octal digit.
fn digit_text(c: u8) -> (r: &'static str)
    requires
        0x30 <= c <= 0x37,
    ensures
        r@ == seq![c as char],
{
    if c == 0x30 {
        proof { reveal_strlit("0"); }
        "0"
    } else if c == 0x31 {
        proof { reveal_strlit("1"); }
        "1"
    } else if c == 0x32 {
        proof { reveal_strlit("2"); }
        "2"
    } else if c == 0x33 {
        proof { reveal_strlit("3"); }
        "3"
    } else if c == 0x34 {
        proof { reveal_strlit("4"); }
        "4"
    } else if c == 0x35 {
        proof { reveal_strlit("5"); }
        "5"
    } else if c == 0x36 {
        proof { reveal_strlit("6"); }
        "6"
    } else {
        proof { reveal_strlit("7"); }
        "7"
    }
}

/// Writes permission bits in octal, as `format!("{:o}", mode)` does.
pub fn format_octal_mode(mode: u32) -> (r: String)
    ensures
        r@ == octal_chars(mode as nat),
{
    let mut digits: Vec<u8> = Vec::new();
    let mut m = mode;
    loop
        invariant_except_break
            octal_digits(mode as nat) == octal_digits(m as nat) + digits@.reverse(),
        ensures
            octal_digits(mode as nat) == digits@.reverse(),
        decreases m,
    {
        let d = (m % 8) as u8 + 0x30;
        let ghost before = digits@;
        digits.push(d);
        assert(digits@.reverse() =~= seq![d] + before.reverse());
        if m < 8 {
            assert(octal_digits(m as nat) =~= seq![d]);
            assert(octal_digits(mode as nat) =~= digits@.reverse());
            break;
        }
        assert(octal_digits(m as nat) =~= octal_digits((m / 8) as nat).push(d));
        assert(octal_digits(mode as nat) =~= octal_digits((m / 8) as nat) + digits@.reverse());
        m = m / 8;
    }
    let ghost all = octal_digits(mode as nat);
    proof {
        lemma_octal_digits_read_back(mode as nat);
    }
    assert(digits@.reverse() == all);
    let mut out = String::new();
    let mut k = digits.len();
    while k > 0
        invariant
            k <= digits.len(),
            digits@.reverse() == all,
            all_octal(all),
            out@ == all.subrange(0, (digits.len() - k) as int).map_values(|b: u8| b as char),
        decreases k,
    {
        let c = digits[k - 1];
        let ghost j = (digits.len() - k) as int;
        assert(all[j] == c);
        assert(is_octal_digit(all[j]));
        let ghost prev = out@;
        out.append(digit_text(c));
        assert(all.subrange(0, j + 1).map_values(|b: u8| b as char) =~= prev + seq![c as char]);
        k = k - 1;
    }
    assert(all.subrange(0, all.len() as int) =~= all);
    out
}

/// Writing permission bits in octal and reading them back gives the same bits.
pub proof fn law_octal_mode_roundtrip(mode: u32)
    ensures
        spelled_mode(bytes_of(octal_chars(mode as nat))) == Some(mode),
{
    lemma_octal_digits_read_back(mode as nat);
    let d = octal_digits(mode as nat);
    let c = octal_chars(mode as nat);
    assert(vstd::utf8::is_ascii_chars(c));
    vstd::utf8::is_ascii_chars_encode_utf8(c);
    assert(bytes_of(c) =~= d);
    assert(after_plus(d) == d);
}


/// Where a seek moves a file's cursor to.
#[derive(Clone, Copy, Debug, PartialEq, Eq, Structural)]
pub enum SeekTarget {
    /// A number of bytes from the start.
    Start(u64),
    /// A number of bytes from the end.
    End(i64),
    /// A number of bytes from where the cursor is.
    Current(i64),
}

/// Why a seek request was refused.
#[derive(Clone, Debug)]
pub enum SeekError {
    /// A seek from the start was asked for with a negative offset.
    OutOfRange,
    /// The origin named is none of `start`, `end` or `current`; the text
    /// is the message shown.
    InvalidWhence(String),
}

impl SeekError {
    /// The message shown for the error.
    pub fn message(&self) -> (r: String)
        ensures
            match self {
                SeekError::OutOfRange => r@ == "out of range integral type conversion attempted"@,
                SeekError::InvalidWhence(m) => r@ == m@,
            },
    {
        match self {
            SeekError::OutOfRange => "out of range integral type conversion attempted".to_owned(),
            SeekError::InvalidWhence(m) => m.clone(),
        }
    }
}

/// The offset a seek uses: the one given, or zero.
pub open spec fn seek_offset(offset: Option<i64>) -> i64 {
    match offset {
        Some(o) => o,
        None => 0,
    }
}

/// Reads a seek request: an offset (zero when absent) and the origin it
/// counts from (`start`, `end` or `current`; the current position when
/// absent).
pub fn seek_target(offset: Option<i64>, whence: Option<&str>) -> (r: Result<SeekTarget, SeekError>)
    ensures
        match whence {
            None => r == Ok::<SeekTarget, SeekError>(SeekTarget::Current(seek_offset(offset))),
            Some(w) => if w@ == "start"@ {
                if seek_offset(offset) >= 0 {
                    r == Ok::<SeekTarget, SeekError>(SeekTarget::Start(seek_offset(offset) as u64))
                } else {
                    r matches Err(SeekError::OutOfRange)
                }
            } else if w@ == "end"@ {
                r == Ok::<SeekTarget, SeekError>(SeekTarget::End(seek_offset(offset)))
            } else if w@ == "current"@ {
                r == Ok::<SeekTarget, SeekError>(SeekTarget::Current(seek_offset(offset)))
            } else {
                r matches Err(SeekError::InvalidWhence(m))
                    && m@ == "invalid option. Must be one of `start`, `end`, or `current`: "@ + w@
            },
        },
{
    let o: i64 = match offset {
        Some(x) => x,
        None => 0,
    };
    match whence {
        None => Ok(SeekTarget::Current(o)),
        Some(w) => {
            if str_is(w, "start") {
                if o >= 0 {
                    Ok(SeekTarget::Start(o as u64))
                } else {
                    Err(SeekError::OutOfRange)
                }
            } else if str_is(w, "end") {
                Ok(SeekTarget::End(o))
            } else if str_is(w, "current") {
                Ok(SeekTarget::Current(o))
            } else {
                Err(SeekError::InvalidWhence(
                    concat("invalid option. Must be one of `start`, `end`, or `current`: ", w),
                ))
            }
        },
    }
}

/// What the system reports of a file: the plain numbers that a stat call
/// gives, with the times it could not read left out.
#[derive(Clone, Copy, Debug)]
pub struct StatRecord {
    pub dev: u64,
    pub ino: u64,
    pub nlink: u64,
    pub uid: u32,
    pub gid: u32,
    pub rdev: u64,
    pub accessed: Option<u64>,
    pub modified: Option<u64>,
    pub ctime: i64,
    pub size: u64,
    pub mode: u32,
    pub blocks: Option<u64>,
    pub blksize: Option<u64>,
}

/// The attributes `lfs.attributes` reports of a file.
#[derive(Clone, Debug)]
pub struct LfsAttributes {
    pub dev: u64,
    pub ino: u64,
    pub mode: String,
    pub nlink: u64,
    pub uid: u32,
    pub gid: u32,
    pub rdev: u64,
    pub access: u64,
    pub modification: u64,
    pub change: i64,
    pub size: u64,
    pub permissions: u32,
    pub blocks: Option<u64>,
    pub blksize: Option<u64>,
    pub target: Option<String>,
}

/// The value an attribute is reported with.
#[derive(Clone, Debug)]
pub enum AttrValue {
    Unsigned(u64),
    Signed(i64),
    Text(String),
    /// No value: the key is left unset.
    Nil,
}

/// An attribute value as the contracts see it.
pub enum AttrShown {
    Unsigned(u64),
    Signed(i64),
    Text(Seq<char>),
    Nil,
}

impl View for AttrValue {
    type V = AttrShown;

    open spec fn view(&self) -> AttrShown {
        match self {
            AttrValue::Unsigned(n) => AttrShown::Unsigned(*n),
            AttrValue::Signed(n) => AttrShown::Signed(*n),
            AttrValue::Text(t) => AttrShown::Text(t@),
            AttrValue::Nil => AttrShown::Nil,
        }
    }
}

impl AttrValue {
    /// A copy of the value.
    pub fn duplicate(&self) -> (r: Self)
        ensures
            r@ == self@,
    {
        match self {
            AttrValue::Unsigned(n) => AttrValue::Unsigned(*n),
            AttrValue::Signed(n) => AttrValue::Signed(*n),
            AttrValue::Text(t) => AttrValue::Text(t.clone()),
            AttrValue::Nil => AttrValue::Nil,
        }
    }
}

/// A name and value as the contracts see them.
pub open spec fn shown(e: (String, AttrValue)) -> (Seq<char>, AttrShown) {
    (e.0@, e.1@)
}

/// A list of names and values as the contracts see it.
pub open spec fn shown_all(v: Seq<(String, AttrValue)>) -> Seq<(Seq<char>, AttrShown)> {
    v.map_values(|e: (String, AttrValue)| shown(e))
}

pub open spec fn shown_count(n: Option<u64>) -> AttrShown {
    match n {
        Some(v) => AttrShown::Unsigned(v),
        None => AttrShown::Nil,
    }
}

pub open spec fn shown_text(t: Option<String>) -> AttrShown {
    match t {
        Some(v) => AttrShown::Text(v@),
        None => AttrShown::Nil,
    }
}

/// Every attribute with its value, in the order they are reported.
pub open spec fn lfs_entries(a: LfsAttributes) -> Seq<(Seq<char>, AttrShown)> {
    seq![
        ("dev"@, AttrShown::Unsigned(a.dev)),
        ("ino"@, AttrShown::Unsigned(a.ino)),
        ("mode"@, AttrShown::Text(a.mode@)),
        ("nlink"@, AttrShown::Unsigned(a.nlink)),
        ("uid"@, AttrShown::Unsigned(a.uid as u64)),
        ("gid"@, AttrShown::Unsigned(a.gid as u64)),
        ("rdev"@, AttrShown::Unsigned(a.rdev)),
        ("access"@, AttrShown::Unsigned(a.access)),
        ("modification"@, AttrShown::Unsigned(a.modification)),
        ("change"@, AttrShown::Signed(a.change)),
        ("size"@, AttrShown::Unsigned(a.size)),
        ("permissions"@, AttrShown::Unsigned(a.permissions as u64)),
        ("blocks"@, shown_count(a.blocks)),
        ("blksize"@, shown_count(a.blksize)),
        ("target"@, shown_text(a.target)),
    ]
}

/// Whether an entry has the name given.
pub open spec fn has_name(name: Seq<char>) -> spec_fn((Seq<char>, AttrShown)) -> bool {
    |e: (Seq<char>, AttrShown)| e.0 == name
}

/// The entries reported when `attr` is asked for: all of them, or those
/// with the name asked for.
pub open spec fn lfs_selected(a: LfsAttributes, attr: Option<Seq<char>>) -> Seq<(Seq<char>, AttrShown)> {
    match attr {
        None => lfs_entries(a),
        Some(name) => lfs_entries(a).filter(has_name(name)),
    }
}

pub open spec fn opt_view(attr: Option<&str>) -> Option<Seq<char>> {
    match attr {
        Some(v) => Some(v@),
        None => None,
    }
}

impl LfsAttributes {
    /// The attributes of a file from what the system reports of it: no
    /// mode text and no link target, and a time it could not read as zero.
    pub fn new(meta: &StatRecord) -> (r: Self)
        ensures
            r.dev == meta.dev,
            r.ino == meta.ino,
            r.mode@ == Seq::<char>::empty(),
            r.nlink == meta.nlink,
            r.uid == meta.uid,
            r.gid == meta.gid,
            r.rdev == meta.rdev,
            r.access == time_or_zero(meta.accessed),
            r.modification == time_or_zero(meta.modified),
            r.change == meta.ctime,
            r.size == meta.size,
            r.permissions == meta.mode,
            r.blocks == meta.blocks,
            r.blksize == meta.blksize,
            r.target.is_none(),
    {
        let mode = String::new();
        LfsAttributes {
            dev: meta.dev,
            ino: meta.ino,
            mode,
            nlink: meta.nlink,
            uid: meta.uid,
            gid: meta.gid,
            rdev: meta.rdev,
            access: match meta.accessed {
                Some(t) => t,
                None => 0,
            },
            modification: match meta.modified {
                Some(t) => t,
                None => 0,
            },
            change: meta.ctime,
            size: meta.size,
            permissions: meta.mode,
            blocks: meta.blocks,
            blksize: meta.blksize,
            target: None,
        }
    }

    /// Every attribute with its value, in the order they are reported.
    fn all_entries(&self) -> (r: Vec<(String, AttrValue)>)
        ensures
            shown_all(r@) == lfs_entries(*self),
    {
        let mut v: Vec<(String, AttrValue)> = Vec::new();
        v.push(("dev".to_owned(), AttrValue::Unsigned(self.dev)));
        v.push(("ino".to_owned(), AttrValue::Unsigned(self.ino)));
        v.push(("mode".to_owned(), AttrValue::Text(self.mode.clone())));
        v.push(("nlink".to_owned(), AttrValue::Unsigned(self.nlink)));
        v.push(("uid".to_owned(), AttrValue::Unsigned(self.uid as u64)));
        v.push(("gid".to_owned(), AttrValue::Unsigned(self.gid as u64)));
        v.push(("rdev".to_owned(), AttrValue::Unsigned(self.rdev)));
        v.push(("access".to_owned(), AttrValue::Unsigned(self.access)));
        v.push(("modification".to_owned(), AttrValue::Unsigned(self.modification)));
        v.push(("change".to_owned(), AttrValue::Signed(self.change)));
        v.push(("size".to_owned(), AttrValue::Unsigned(self.size)));
        v.push(("permissions".to_owned(), AttrValue::Unsigned(self.permissions as u64)));
        v.push(("blocks".to_owned(), match self.blocks {
            Some(n) => AttrValue::Unsigned(n),
            None => AttrValue::Nil,
        }));
        v.push(("blksize".to_owned(), match self.blksize {
            Some(n) => AttrValue::Unsigned(n),
            None => AttrValue::Nil,
        }));
        v.push(("target".to_owned(), match &self.target {
            Some(t) => AttrValue::Text(t.clone()),
            None => AttrValue::Nil,
        }));
        assert(shown_all(v@) =~= lfs_entries(*self));
        v
    }

    /// The entries a `lfs.attributes` call reports: every attribute when
    /// none is named, else only the one named (none if the name is unknown).
    pub fn entries(&self, attr: Option<&str>) -> (r: Vec<(String, AttrValue)>)
        ensures
            shown_all(r@) == lfs_selected(*self, opt_view(attr)),
    {
        let all = self.all_entries();
        match attr {
            None => {
                all
            },
            Some(name) => {
                let ghost full = lfs_entries(*self);
                let ghost pred = has_name(name@);
                let mut out: Vec<(String, AttrValue)> = Vec::new();
                let mut i: usize = 0;
                while i < all.len()
                    invariant
                        i <= all.len(),
                        shown_all(all@) == full,
                        pred == has_name(name@),
                        shown_all(out@) == full.subrange(0, i as int).filter(pred),
                    decreases all.len() - i,
                {
                    let ghost before = out@;
                    proof {
                        reveal(Seq::filter);
                        assert(full.subrange(0, i + 1).drop_last() =~= full.subrange(0, i as int));
                        assert(full.subrange(0, i + 1).last() == full[i as int]);
                        assert(full[i as int] == shown(all@[i as int]));
                    }
                    if str_is(all[i].0.as_str(), name) {
                        out.push((all[i].0.clone(), all[i].1.duplicate()));
                        assert(shown_all(out@) =~= shown_all(before).push(full[i as int]));
                    }
                    i = i + 1;
                }
                assert(full.subrange(0, i as int) =~= full);
                out
            },
        }
    }
}

/// A time that may be missing, read as zero when it is.
pub open spec fn time_or_zero(t: Option<u64>) -> u64 {
    match t {
        Some(v) => v,
        None => 0,
    }
}

/// An entry of `s` is the only one with its name, when no two entries
/// share a name.
proof fn lemma_filter_unique_name(s: Seq<(Seq<char>, AttrShown)>, i: int)
    requires
        0 <= i < s.len(),
        forall|j: int, k: int| 0 <= j < k < s.len() ==> #[trigger] s[j].0 != #[trigger] s[k].0,
    ensures
        s.filter(has_name(s[i].0)) == seq![s[i]],
    decreases s.len(),
{
    reveal(Seq::filter);
    let p = s.drop_last();
    if i == s.len() - 1 {
        lemma_filter_no_name(p, s[i].0);
        assert(p.filter(has_name(s[i].0)) =~= Seq::<(Seq<char>, AttrShown)>::empty());
    } else {
        assert forall|j: int, k: int| 0 <= j < k < p.len() implies #[trigger] p[j].0 != #[trigger] p[k].0 by {
            assert(p[j] == s[j] && p[k] == s[k]);
        }
        lemma_filter_unique_name(p, i);
        assert(p[i] == s[i]);
        assert(s.last().0 != s[i].0);
    }
}

/// No entry is kept when none has the name.
proof fn lemma_filter_no_name(s: Seq<(Seq<char>, AttrShown)>, name: Seq<char>)
    requires
        forall|j: int| 0 <= j < s.len() ==> #[trigger] s[j].0 != name,
    ensures
        s.filter(has_name(name)).len() == 0,
    decreases s.len(),
{
    reveal(Seq::filter);
    if s.len() > 0 {
        let p = s.drop_last();
        assert forall|j: int| 0 <= j < p.len() implies #[trigger] p[j].0 != name by {
            assert(p[j] == s[j]);
        }
        lemma_filter_no_name(p, name);
        assert(s.last().0 != name);
    }
}

/// No two attributes share a name.
proof fn lemma_attribute_names_distinct(a: LfsAttributes)
    ensures
        forall|j: int, k: int|
            0 <= j < k < lfs_entries(a).len() ==> #[trigger] lfs_entries(a)[j].0 != #[trigger] lfs_entries(a)[k].0,
{
    reveal_strlit("dev");
    reveal_strlit("ino");
    reveal_strlit("mode");
    reveal_strlit("nlink");
    reveal_strlit("uid");
    reveal_strlit("gid");
    reveal_strlit("rdev");
    reveal_strlit("access");
    reveal_strlit("modification");
    reveal_strlit("change");
    reveal_strlit("size");
    reveal_strlit("permissions");
    reveal_strlit("blocks");
    reveal_strlit("blksize");
    reveal_strlit("target");
    let full = lfs_entries(a);
    assert forall|j: int, k: int| 0 <= j < k < full.len() implies full[j].0 != full[k].0 by {
        if full[j].0 == full[k].0 {
            assert(full[j].0.len() == full[k].0.len());
            assert(full[j].0[0] == full[k].0[0]);
            assert(0 <= j < 15 && 0 <= k < 15);
        }
    }
}

/// Asking for one attribute by its name reports that attribute alone, with
/// the value a full listing gives it.
pub proof fn law_one_attribute_as_in_full_listing(a: LfsAttributes, i: int)
    requires
        0 <= i < lfs_entries(a).len(),
    ensures
        lfs_selected(a, Some(lfs_entries(a)[i].0)) == seq![lfs_entries(a)[i]],
{
    lemma_attribute_names_distinct(a);
    lemma_filter_unique_name(lfs_entries(a), i);
}

} // verus!
