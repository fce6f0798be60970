//! Splitting a span of text into the lines it touches.
use vstd::prelude::*;
use vstd::string::StringSliceAdditionalSpecFns;
use vstd::utf8::{is_char_boundary, valid_utf8};
use crate::text::{bytes_of, byte_slice, is_char_range, lemma_boundary_after_ascii};

verus! {

broadcast use vstd::utf8::group_utf8_lib;

/// A line of the input: its byte range and its text.
#[derive(Debug, PartialEq)]
pub struct LuaSpan {
    pub start: usize,
    pub end: usize,
    pub text: String,
}

/// Walks the lines of `input` that overlap the span ending at `end`,
/// starting with the line that holds byte `pos`.
#[derive(Debug)]
pub struct LuaLinesIter {
    input: String,
    end: usize,
    pos: usize,
}

/// No line break among the bytes `b[lo .. hi]`.
pub open spec fn no_newline(b: Seq<u8>, lo: int, hi: int) -> bool {
    forall|k: int| lo <= k < hi ==> b[k] != 0x0a
}

/// Offset where the line holding byte `pos` starts: just after the last
/// line break before `pos`, or 0.
pub open spec fn line_start(b: Seq<u8>, pos: int, r: int) -> bool {
    &&& 0 <= r <= pos
    &&& r == 0 || b[r - 1] == 0x0a
    &&& no_newline(b, r, pos)
}

/// Offset where the line holding byte `pos` ends: just after the first line
/// break at or after `pos`, or the end of the input.
pub open spec fn line_end(b: Seq<u8>, pos: int, r: int) -> bool {
    &&& pos <= r <= b.len()
    &&& (r == b.len() && no_newline(b, pos, b.len() as int)) || (pos < r && b[r - 1] == 0x0a
        && no_newline(b, pos, r - 1))
}

impl LuaLinesIter {
    pub closed spec fn spec_input(self) -> Seq<char> {
        self.input@
    }

    pub closed spec fn spec_end(self) -> usize {
        self.end
    }

    pub closed spec fn spec_pos(self) -> usize {
        self.pos
    }

    pub open spec fn wf(self) -> bool {
        self.spec_pos() <= self.spec_end() <= bytes_of(self.spec_input()).len()
    }

    /// Starts at the beginning of the span `start .. end` of `input`.
    pub fn from_span(input: String, start: usize, end: usize) -> (r: Self)
        requires
            start <= end <= bytes_of(input@).len(),
        ensures
            r.wf(),
            r.spec_input() == input@,
            r.spec_end() == end,
            r.spec_pos() == start,
    {
        LuaLinesIter { input, end, pos: start }
    }

    /// Offset where the current line starts.
    pub fn find_line_start(&self) -> (r: usize)
        requires
            self.wf(),
        ensures
            line_start(bytes_of(self.spec_input()), self.spec_pos() as int, r as int),
    {
        let input = self.input.as_str().as_bytes();
        if input.len() == 0 {
            return 0;
        }
        let mut i = self.pos;
        while i > 0
            invariant
                i <= self.pos <= input.len(),
                input@ == bytes_of(self.spec_input()),
                no_newline(input@, i as int, self.pos as int),
            decreases i,
        {
            if input[i - 1] == 0x0a {
                return i;
            }
            i = i - 1;
        }
        0
    }

    /// Offset where the current line ends.
    pub fn find_line_end(&self) -> (r: usize)
        requires
            self.wf(),
        ensures
            line_end(bytes_of(self.spec_input()), self.spec_pos() as int, r as int),
    {
        let input = self.input.as_str().as_bytes();
        if input.len() == 0 {
            0
        } else if self.pos == input.len() - 1 {
            input.len()
        } else {
            let mut i = self.pos;
            while i < input.len()
                invariant
                    self.pos <= i <= input.len(),
                    input@ == bytes_of(self.spec_input()),
                    no_newline(input@, self.pos as int, i as int),
                decreases input.len() - i,
            {
                if input[i] == 0x0a {
                    return i + 1;
                }
                i = i + 1;
            }
            input.len()
        }
    }

    /// The next line that overlaps the span, if the span is not used up.
    pub fn next(&mut self) -> (r: Option<LuaSpan>)
        requires
            old(self).wf(),
        ensures
            final(self).spec_input() == old(self).spec_input(),
            final(self).spec_end() == old(self).spec_end(),
            old(self).spec_pos() >= old(self).spec_end() ==> r is None && *final(self) == *old(self),
            old(self).spec_pos() < old(self).spec_end() ==> match r {
                Some(line) => {
                    let b = bytes_of(old(self).spec_input());
                    &&& line_start(b, old(self).spec_pos() as int, line.start as int)
                    &&& line_end(b, old(self).spec_pos() as int, line.end as int)
                    &&& final(self).spec_pos() == line.end
                    &&& old(self).spec_pos() < line.end
                    &&& bytes_of(line.text@) == b.subrange(line.start as int, line.end as int)
                },
                None => false,
            },
    {
        if self.pos >= self.end {
            return None;
        }

        let start = self.find_line_start();
        let end = self.find_line_end();
        let s = self.input.as_str();
        proof {
            let b = bytes_of(self.input@);
            crate::text::lemma_bytes_decode(self.input@);
            assert(s.spec_bytes() == b);
            if start > 0 {
                lemma_boundary_after_ascii(b, start - 1);
            }
            if end < b.len() {
                lemma_boundary_after_ascii(b, end - 1);
            }
            assert(is_char_boundary(b, 0));
            assert(is_char_boundary(b, b.len() as int));
        }
        let text = byte_slice(s, start, end);
        self.pos = end;
        Some(LuaSpan { start, end, text })
    }
}

/// Lines follow one another: when a line ends before the end of the input,
/// the line that holds the byte just after it starts there.
pub proof fn law_lines_are_consecutive(b: Seq<u8>, pos: int, end: int, next_start: int)
    requires
        line_end(b, pos, end),
        end < b.len(),
        line_start(b, end, next_start),
    ensures
        next_start == end,
{
    assert(b[end - 1] == 0x0a);
    if next_start < end {
        assert(b[end - 1] != 0x0a);
    }
}

} // verus!
