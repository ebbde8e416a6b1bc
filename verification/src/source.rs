//! Version-tracked source text and byte/line/column conversions.
//!
//! A [`SourceBuffer`] is an immutable snapshot of one document's text.
//! Positions exchanged with the editor come as (line, column) pairs;
//! everything inside the library works on byte offsets, so the
//! conversions are defined here, over bytes, with `\n` (byte 10) as the
//! only line terminator and columns counted in bytes.

use vstd::prelude::*;

use crate::geom::ByteRange;

verus! {

/// The line-feed byte that terminates a line.
pub const LINE_FEED: u8 = 10;

/// An immutable snapshot of a document's text, with the monotonic
/// version counter assigned by the cache that produced it.
#[derive(Debug)]
pub struct SourceBuffer {
    pub bytes: Vec<u8>,
    pub version: u64,
}

/// How many line feeds occur strictly before byte `n` of `s`.
pub open spec fn newlines_before(s: Seq<u8>, n: int) -> nat
    decreases n,
{
    if n <= 0 {
        0
    } else {
        newlines_before(s, n - 1) + (if s[n - 1] == LINE_FEED {
            1nat
        } else {
            0nat
        })
    }
}

/// The (zero-based) column of byte `n` of `s`: bytes since the last
/// line feed.
pub open spec fn column_at(s: Seq<u8>, n: int) -> nat
    decreases n,
{
    if n <= 0 {
        0
    } else if s[n - 1] == LINE_FEED {
        0
    } else {
        column_at(s, n - 1) + 1
    }
}

/// The number of lines of `s`: one more than its line feeds.
pub open spec fn line_count(s: Seq<u8>) -> int {
    newlines_before(s, s.len() as int) as int + 1
}

/// Byte `n` sits at the end of its line: at the end of the text or on a
/// line feed.
pub open spec fn at_line_end(s: Seq<u8>, n: int) -> bool {
    n == s.len() || s[n] == LINE_FEED
}

/// There are never more line feeds before `n` than bytes.
pub proof fn lemma_newlines_le(s: Seq<u8>, n: int)
    requires
        0 <= n,
    ensures
        newlines_before(s, n) <= n,
    decreases n,
{
    if n > 0 {
        lemma_newlines_le(s, n - 1);
    }
}

/// Line feeds only accumulate as the prefix grows.
pub proof fn lemma_newlines_monotone(s: Seq<u8>, m: int, n: int)
    requires
        0 <= m <= n,
    ensures
        newlines_before(s, m) <= newlines_before(s, n),
    decreases n,
{
    if m < n {
        lemma_newlines_monotone(s, m, n - 1);
    }
}

impl SourceBuffer {
    pub fn new(bytes: Vec<u8>, version: u64) -> (r: SourceBuffer)
        ensures
            r.bytes@ == bytes@,
            r.version == version,
    {
        SourceBuffer { bytes, version }
    }

    pub fn len_bytes(&self) -> (r: usize)
        ensures
            r == self.bytes@.len(),
    {
        self.bytes.len()
    }

    /// The (zero-based) line on which byte `byte` sits, or `None` past
    /// the end of the text.
    pub fn byte_to_line(&self, byte: usize) -> (r: Option<usize>)
        ensures
            byte <= self.bytes@.len() ==> r == Some(newlines_before(self.bytes@, byte as int) as usize),
            byte > self.bytes@.len() ==> r is None,
    {
        if byte > self.bytes.len() {
            return None;
        }
        let mut count: usize = 0;
        let mut i: usize = 0;
        while i < byte
            invariant
                i <= byte <= self.bytes@.len(),
                count == newlines_before(self.bytes@, i as int),
                count <= i,
            decreases byte - i,
        {
            if self.bytes[i] == LINE_FEED {
                count = count + 1;
            }
            i = i + 1;
        }
        Some(count)
    }

    /// The (zero-based, byte-counted) column of byte `byte`, or `None`
    /// past the end of the text.
    pub fn byte_to_column(&self, byte: usize) -> (r: Option<usize>)
        ensures
            byte <= self.bytes@.len() ==> r == Some(column_at(self.bytes@, byte as int) as usize),
            byte > self.bytes@.len() ==> r is None,
    {
        if byte > self.bytes.len() {
            return None;
        }
        let mut col: usize = 0;
        let mut i: usize = 0;
        while i < byte
            invariant
                i <= byte <= self.bytes@.len(),
                col == column_at(self.bytes@, i as int),
                col <= i,
            decreases byte - i,
        {
            if self.bytes[i] == LINE_FEED {
                col = 0;
            } else {
                col = col + 1;
            }
            i = i + 1;
        }
        Some(col)
    }

    /// The byte offset of (line, column), with the column clamped to
    /// the line's length; `None` when the text has no such line.
    pub fn line_column_to_byte(&self, line: usize, column: usize) -> (r: Option<usize>)
        ensures
            r is Some <==> line < line_count(self.bytes@),
            r matches Some(b) ==> {
                &&& b <= self.bytes@.len()
                &&& newlines_before(self.bytes@, b as int) == line
                &&& (column_at(self.bytes@, b as int) == column || (column_at(self.bytes@, b as int)
                    < column && at_line_end(self.bytes@, b as int)))
            },
    {
        let len = self.bytes.len();
        let mut i: usize = 0;
        let mut cur_line: usize = 0;
        while i < len && cur_line < line
            invariant
                i <= len == self.bytes@.len(),
                cur_line == newlines_before(self.bytes@, i as int),
                cur_line <= line,
                cur_line == line ==> column_at(self.bytes@, i as int) == 0,
            decreases len - i,
        {
            if self.bytes[i] == LINE_FEED {
                cur_line = cur_line + 1;
            }
            i = i + 1;
        }
        if cur_line < line {
            proof {
                lemma_newlines_le(self.bytes@, len as int);
            }
            return None;
        }
        let mut c: usize = 0;
        while c < column && i < len && self.bytes[i] != LINE_FEED
            invariant
                i <= len == self.bytes@.len(),
                c <= column,
                newlines_before(self.bytes@, i as int) == line,
                column_at(self.bytes@, i as int) == c,
            decreases len - i,
        {
            i = i + 1;
            c = c + 1;
        }
        proof {
            lemma_newlines_monotone(self.bytes@, i as int, len as int);
        }
        Some(i)
    }

    /// The one-byte range at an edited (line, column) position, for
    /// scroll targeting: the byte at that position when the line
    /// exists, else the last byte of the text, and an empty range
    /// only for empty text.
    pub fn edited_range_for_position(&self, line: usize, column: usize) -> (r: ByteRange)
        ensures
            r.wf(),
            r.end <= self.bytes@.len(),
            line < line_count(self.bytes@) ==> ({
                &&& newlines_before(self.bytes@, r.start as int) == line
                &&& (column_at(self.bytes@, r.start as int) == column || (column_at(
                    self.bytes@,
                    r.start as int,
                ) < column && at_line_end(self.bytes@, r.start as int)))
                &&& r.end as int == if r.start < self.bytes@.len() {
                    r.start as int + 1
                } else {
                    r.start as int
                }
            }),
            line >= line_count(self.bytes@) ==> ({
                &&& r.start as int == if self.bytes@.len() > 0 {
                    self.bytes@.len() as int - 1
                } else {
                    0int
                }
                &&& r.end == self.bytes@.len()
            }),
    {
        let len = self.bytes.len();
        match self.line_column_to_byte(line, column) {
            Some(byte) => {
                if byte < len {
                    ByteRange::new(byte, byte + 1)
                } else {
                    ByteRange::new(byte, byte)
                }
            },
            None => {
                if len > 0 {
                    ByteRange::new(len - 1, len)
                } else {
                    ByteRange::new(0, 0)
                }
            },
        }
    }
}

} // verus!
