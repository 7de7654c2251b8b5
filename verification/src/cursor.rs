//! The read cursor: how many bytes of the source file have been processed.

use vstd::prelude::*;

verus! {

/// A range of bytes of the source file, from `start` on.
#[derive(Clone, Copy, Debug, PartialEq, Eq, Structural)]
pub struct Span {
    pub start: u64,
    pub len: u64,
}

/// The offset of the first byte of the source file that has not been
/// processed. It never moves back.
#[derive(Clone, Copy, Debug, PartialEq, Eq, Structural)]
pub struct Cursor {
    offset: u64,
}

/// The bytes that wait to be read when the cursor stands at `offset` and
/// the file is `length` bytes long: none where the file has not grown past
/// the cursor, whether it kept its length or shrank.
pub open spec fn pending_span(offset: u64, length: u64) -> Option<Span> {
    if length <= offset {
        None
    } else {
        Some(Span { start: offset, len: (length - offset) as u64 })
    }
}

/// Where the cursor stands after a file of `length` bytes was read to its
/// end.
pub open spec fn advanced(offset: u64, length: u64) -> u64 {
    if length <= offset {
        offset
    } else {
        length
    }
}

impl View for Cursor {
    type V = u64;

    closed spec fn view(&self) -> u64 {
        self.offset
    }
}

impl Cursor {
    /// A cursor at the start of the file.
    pub fn new() -> (cursor: Cursor)
        ensures
            cursor@ == 0,
    {
        Cursor { offset: 0 }
    }

    /// The offset at which the cursor stands.
    pub fn offset(&self) -> (offset: u64)
        ensures
            offset == self@,
    {
        self.offset
    }

    /// The bytes to read from a file that is now `length` bytes long.
    pub fn pending(&self, length: u64) -> (span: Option<Span>)
        ensures
            span == pending_span(self@, length),
    {
        if length <= self.offset {
            None
        } else {
            Some(Span { start: self.offset, len: length - self.offset })
        }
    }

    /// Moves the cursor to the end of a file of `length` bytes, unless it
    /// stands there or beyond already.
    pub fn advance(&mut self, length: u64)
        ensures
            final(self)@ == advanced(old(self)@, length),
    {
        if length > self.offset {
            self.offset = length;
        }
    }
}

/// Once a file of some length was read to its end, nothing of it waits to
/// be read again: reading the same range twice yields nothing the second
/// time.
pub proof fn lemma_nothing_pending_after_advance(offset: u64, length: u64)
    ensures
        pending_span(advanced(offset, length), length) is None,
{
}

/// The cursor never moves back, and what waits to be read always starts at
/// the cursor and ends at the end of the file.
pub proof fn lemma_cursor_monotone(offset: u64, length: u64)
    ensures
        advanced(offset, length) >= offset,
        advanced(offset, length) >= length,
        pending_span(offset, length) matches Some(span) ==> span.start == offset && span.start
            + span.len == length && span.len > 0,
{
}

} // verus!
