//! Provide utilities for working with asynchronous IO.
//!
//! This module holds the bookkeeping that the asynchronous readers and writers do between two
//! polls of their IO object: how far a cursor has read into a buffered reader, and how far a
//! buffer has been written.
use vstd::prelude::*;


verus! {

/// A cursor over a buffered reader: the bytes it hands out stay in the reader's buffer until
/// they are committed.
#[derive(Debug)]
pub struct BufCursor<B> {
    io: B,
    read: usize,
}

impl<B> BufCursor<B> {
    /// The buffered reader.
    pub closed spec fn io_view(&self) -> B {
        self.io
    }

    /// How many bytes of the reader's buffer the cursor has handed out since the last commit.
    pub closed spec fn read_view(&self) -> nat {
        self.read as nat
    }

    /// Creates a cursor at the beginning of the buffer of `io`.
    pub fn new(io: B) -> (c: Self)
        ensures
            c.io_view() == io,
            c.read_view() == 0,
    {
        BufCursor { io, read: 0 }
    }

    /// Returns how many bytes the cursor has handed out since the last commit.
    pub fn read(&self) -> (n: usize)
        ensures
            n == self.read_view(),
    {
        self.read
    }

    /// Hands out the next `len` bytes when the reader's buffer, of `buffered` bytes, holds them:
    /// returns the range of the buffer they occupy, and steps over them. Returns `None` when
    /// more bytes must be read first.
    pub fn try_get(&mut self, buffered: usize, len: usize) -> (r: Option<core::ops::Range<usize>>)
        requires
            old(self).read_view() + len <= usize::MAX,
        ensures
            r is Some == (old(self).read_view() + len <= buffered),
            r matches Some(range) ==> range.start == old(self).read_view() && range.end
                == old(self).read_view() + len && final(self).read_view() == range.end,
            r is None ==> final(self).read_view() == old(self).read_view(),
            final(self).io_view() == old(self).io_view(),
    {
        let end = self.read + len;
        if buffered >= end {
            let start = self.read;
            self.read = end;
            Some(start..end)
        } else {
            None
        }
    }

    /// Returns how many bytes to consume from the reader's buffer to commit what the cursor has
    /// handed out, and starts over from there.
    pub fn commit(&mut self) -> (n: usize)
        ensures
            n == old(self).read_view(),
            final(self).read_view() == 0,
            final(self).io_view() == old(self).io_view(),
    {
        let n = self.read;
        self.read = 0;
        n
    }

    /// Steps over `cnt` more bytes of the reader's buffer.
    pub fn consume(&mut self, cnt: usize)
        requires
            old(self).read_view() + cnt <= usize::MAX,
        ensures
            final(self).read_view() == old(self).read_view() + cnt,
            final(self).io_view() == old(self).io_view(),
    {
        self.read = self.read + cnt;
    }

    /// The buffered reader.
    pub fn io_ref(&self) -> (io: &B)
        ensures
            *io == self.io_view(),
    {
        &self.io
    }

    /// The buffered reader.
    pub fn io_mut(&mut self) -> (io: &mut B)
        ensures
            *io == old(self).io_view(),
            final(self).io_view() == *final(io),
            final(self).read_view() == old(self).read_view(),
    {
        &mut self.io
    }
}

/// What a writer does after a write of its buffer.
#[derive(Debug, PartialEq, Eq, Structural)]
pub enum WriteProgress {
    /// Every byte is written.
    Done,
    /// Some bytes remain: write again.
    Again,
    /// The IO object wrote nothing: the write fails with `WriteZero`.
    WriteZero,
}

/// Decides what comes after an IO object wrote `written` of the `remaining` bytes of a buffer.
///
/// A write of no byte fails, as the IO object will not take more.
pub fn write_progress(remaining: usize, written: usize) -> (p: WriteProgress)
    requires
        written <= remaining,
    ensures
        written == 0 ==> p == WriteProgress::WriteZero,
        0 < written && written == remaining ==> p == WriteProgress::Done,
        0 < written && written < remaining ==> p == WriteProgress::Again,
{
    if written == 0 {
        WriteProgress::WriteZero
    } else if written == remaining {
        WriteProgress::Done
    } else {
        WriteProgress::Again
    }
}

} // verus!
