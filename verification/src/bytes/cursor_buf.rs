//! A cursor that steps over a buffer, and then applies its steps to the buffer.
use vstd::prelude::*;

use super::{Bytes, BytesMut};

verus! {

/// A cursor over a buffer: the number of bytes it has stepped over, and a mutable reference to
/// the buffer, on which the steps can then be applied, by advancing, splitting or truncating the
/// buffer; the caller's buffer keeps what was applied once the cursor is dropped.
#[derive(Debug)]
pub struct CursorBuf<T> {
    buf: T,
    steps: usize,
}

impl<T> CursorBuf<T> {
    /// The buffer.
    pub closed spec fn buf_view(&self) -> T {
        self.buf
    }

    /// How many bytes the cursor has stepped over.
    pub closed spec fn steps_view(&self) -> nat {
        self.steps as nat
    }

    /// Returns how many bytes the cursor has stepped over.
    pub fn steps(&self) -> (n: usize)
        ensures
            n == self.steps_view(),
    {
        self.steps
    }

    /// Consumes the cursor, returning the buffer.
    pub fn into_inner(self) -> (t: T)
        ensures
            t == self.buf_view(),
    {
        self.buf
    }
}

impl<'a> CursorBuf<&'a mut Bytes> {
    /// The well-formedness of the cursor: it stands within the buffer.
    pub open spec fn wf(&self) -> bool {
        self.steps_view() <= (*self.buf_view())@.len()
    }

    /// The bytes from the cursor to the end of the buffer.
    pub open spec fn rest_view(&self) -> Seq<u8> {
        (*self.buf_view())@.skip(self.steps_view() as int)
    }

    /// Creates a cursor at the beginning of the buffer that `buf` refers to.
    pub fn new(buf: &'a mut Bytes) -> (c: Self)
        ensures
            c.wf(),
            *c.buf_view() == *old(buf),
            *final(c.buf_view()) == *final(buf),
            c.steps_view() == 0,
    {
        CursorBuf { buf, steps: 0 }
    }

    /// Returns the bytes from the cursor to the end of the buffer.
    pub fn as_slice(&self) -> (s: &[u8])
        requires
            self.wf(),
        ensures
            s@ == self.rest_view(),
    {
        let all = self.buf.as_slice();
        let s = &all[self.steps..all.len()];
        assert(s@ =~= self.rest_view());
        s
    }

    /// Steps over `n` more bytes, which must be within the buffer.
    pub fn advance(&mut self, n: usize)
        requires
            old(self).wf(),
            old(self).steps_view() + n <= (*old(self).buf_view())@.len(),
        ensures
            final(self).wf(),
            final(self).buf_view() == old(self).buf_view(),
            final(self).steps_view() == old(self).steps_view() + n,
    {
        let _ = self.buf.len();
        self.steps = self.steps + n;
    }

    /// Returns the byte at the cursor and steps over it, or `None` at the end of the buffer.
    pub fn next(&mut self) -> (r: Option<u8>)
        requires
            old(self).wf(),
        ensures
            final(self).wf(),
            final(self).buf_view() == old(self).buf_view(),
            old(self).rest_view().len() == 0 ==> r is None && final(self).steps_view() == old(
                self,
            ).steps_view(),
            old(self).rest_view().len() > 0 ==> r == Some(old(self).rest_view()[0])
                && final(self).steps_view() == old(self).steps_view() + 1,
    {
        let all = self.buf.as_slice();
        if self.steps < all.len() {
            let b = all[self.steps];
            self.steps = self.steps + 1;
            Some(b)
        } else {
            None
        }
    }

    /// Advances the buffer past the bytes the cursor has stepped over, and puts the cursor back
    /// at the beginning of the buffer.
    pub fn advance_buf(&mut self)
        requires
            old(self).wf(),
        ensures
            *final(final(self).buf_view()) == *final(old(self).buf_view()),
            final(self).wf(),
            (*final(self).buf_view())@ == old(self).rest_view(),
            final(self).steps_view() == 0,
    {
        let steps = self.steps;
        self.buf.advance(steps);
        self.steps = 0;
    }

    /// Splits off the bytes the cursor has stepped over, and puts the cursor back at the
    /// beginning of the rest of the buffer.
    pub fn split_to(&mut self) -> (b: Bytes)
        requires
            old(self).wf(),
        ensures
            *final(final(self).buf_view()) == *final(old(self).buf_view()),
            final(self).wf(),
            b@ == (*old(self).buf_view())@.take(old(self).steps_view() as int),
            (*final(self).buf_view())@ == old(self).rest_view(),
            final(self).steps_view() == 0,
    {
        let steps = self.steps;
        let b = self.buf.split_to(steps);
        self.steps = 0;
        b
    }

    /// Splits off the bytes from the cursor to the end of the buffer, and leaves the cursor at
    /// the end of the rest of the buffer.
    pub fn split_off(&mut self) -> (b: Bytes)
        requires
            old(self).wf(),
        ensures
            *final(final(self).buf_view()) == *final(old(self).buf_view()),
            final(self).wf(),
            b@ == old(self).rest_view(),
            (*final(self).buf_view())@ == (*old(self).buf_view())@.take(old(self).steps_view() as int),
            final(self).steps_view() == old(self).steps_view(),
    {
        let steps = self.steps;
        self.buf.split_off(steps)
    }

    /// Drops the bytes from the cursor to the end of the buffer, and leaves the cursor at the end
    /// of the buffer.
    pub fn truncate_buf(&mut self)
        requires
            old(self).wf(),
        ensures
            *final(final(self).buf_view()) == *final(old(self).buf_view()),
            final(self).wf(),
            (*final(self).buf_view())@ == (*old(self).buf_view())@.take(old(self).steps_view() as int),
            final(self).steps_view() == old(self).steps_view(),
    {
        let steps = self.steps;
        self.buf.truncate(steps);
        assert((*self.buf)@ =~= (*old(self).buf_view())@.take(steps as int));
    }
}

impl<'a> CursorBuf<&'a mut BytesMut> {
    /// The well-formedness of the cursor: it stands within the buffer.
    pub open spec fn wf(&self) -> bool {
        self.steps_view() <= (*self.buf_view())@.len()
    }

    /// The bytes from the cursor to the end of the buffer.
    pub open spec fn rest_view(&self) -> Seq<u8> {
        (*self.buf_view())@.skip(self.steps_view() as int)
    }

    /// Creates a cursor at the beginning of the buffer that `buf` refers to.
    pub fn new(buf: &'a mut BytesMut) -> (c: Self)
        ensures
            c.wf(),
            *c.buf_view() == *old(buf),
            *final(c.buf_view()) == *final(buf),
            c.steps_view() == 0,
    {
        CursorBuf { buf, steps: 0 }
    }

    /// Returns the bytes from the cursor to the end of the buffer.
    pub fn as_slice(&self) -> (s: &[u8])
        requires
            self.wf(),
        ensures
            s@ == self.rest_view(),
    {
        let all = self.buf.as_slice();
        let s = &all[self.steps..all.len()];
        assert(s@ =~= self.rest_view());
        s
    }

    /// Steps over `n` more bytes, which must be within the buffer.
    pub fn advance(&mut self, n: usize)
        requires
            old(self).wf(),
            old(self).steps_view() + n <= (*old(self).buf_view())@.len(),
        ensures
            final(self).wf(),
            final(self).buf_view() == old(self).buf_view(),
            final(self).steps_view() == old(self).steps_view() + n,
    {
        let _ = self.buf.len();
        self.steps = self.steps + n;
    }

    /// Returns the byte at the cursor and steps over it, or `None` at the end of the buffer.
    pub fn next(&mut self) -> (r: Option<u8>)
        requires
            old(self).wf(),
        ensures
            final(self).wf(),
            final(self).buf_view() == old(self).buf_view(),
            old(self).rest_view().len() == 0 ==> r is None && final(self).steps_view() == old(
                self,
            ).steps_view(),
            old(self).rest_view().len() > 0 ==> r == Some(old(self).rest_view()[0])
                && final(self).steps_view() == old(self).steps_view() + 1,
    {
        let all = self.buf.as_slice();
        if self.steps < all.len() {
            let b = all[self.steps];
            self.steps = self.steps + 1;
            Some(b)
        } else {
            None
        }
    }

    /// Advances the buffer past the bytes the cursor has stepped over, and puts the cursor back
    /// at the beginning of the buffer.
    pub fn advance_buf(&mut self)
        requires
            old(self).wf(),
        ensures
            *final(final(self).buf_view()) == *final(old(self).buf_view()),
            final(self).wf(),
            (*final(self).buf_view())@ == old(self).rest_view(),
            final(self).steps_view() == 0,
    {
        let steps = self.steps;
        self.buf.advance(steps);
        self.steps = 0;
    }

    /// Splits off the bytes the cursor has stepped over, and puts the cursor back at the
    /// beginning of the rest of the buffer.
    pub fn split_to(&mut self) -> (b: BytesMut)
        requires
            old(self).wf(),
        ensures
            *final(final(self).buf_view()) == *final(old(self).buf_view()),
            final(self).wf(),
            b@ == (*old(self).buf_view())@.take(old(self).steps_view() as int),
            (*final(self).buf_view())@ == old(self).rest_view(),
            final(self).steps_view() == 0,
    {
        let steps = self.steps;
        let b = self.buf.split_to(steps);
        self.steps = 0;
        b
    }

    /// Splits off the bytes from the cursor to the end of the buffer, and leaves the cursor at
    /// the end of the rest of the buffer.
    pub fn split_off(&mut self) -> (b: BytesMut)
        requires
            old(self).wf(),
        ensures
            *final(final(self).buf_view()) == *final(old(self).buf_view()),
            final(self).wf(),
            b@ == old(self).rest_view(),
            (*final(self).buf_view())@ == (*old(self).buf_view())@.take(old(self).steps_view() as int),
            final(self).steps_view() == old(self).steps_view(),
    {
        let steps = self.steps;
        self.buf.split_off(steps)
    }

    /// Drops the bytes from the cursor to the end of the buffer, and leaves the cursor at the end
    /// of the buffer.
    pub fn truncate_buf(&mut self)
        requires
            old(self).wf(),
        ensures
            *final(final(self).buf_view()) == *final(old(self).buf_view()),
            final(self).wf(),
            (*final(self).buf_view())@ == (*old(self).buf_view())@.take(old(self).steps_view() as int),
            final(self).steps_view() == old(self).steps_view(),
    {
        let steps = self.steps;
        self.buf.truncate(steps);
        assert((*self.buf)@ =~= (*old(self).buf_view())@.take(steps as int));
    }
}

impl<'a, 'b> CursorBuf<&'a mut &'b [u8]> {
    /// The well-formedness of the cursor: it stands within the slice.
    pub open spec fn wf(&self) -> bool {
        self.steps_view() <= (*self.buf_view())@.len()
    }

    /// Creates a cursor at the beginning of the slice that `bytes` refers to.
    pub fn from_slice(bytes: &'a mut &'b [u8]) -> (c: Self)
        ensures
            c.wf(),
            *c.buf_view() == *old(bytes),
            *final(c.buf_view()) == *final(bytes),
            c.steps_view() == 0,
    {
        CursorBuf { buf: bytes, steps: 0 }
    }

    /// The bytes from the cursor to the end of the slice.
    pub open spec fn rest_view(&self) -> Seq<u8> {
        (*self.buf_view())@.skip(self.steps_view() as int)
    }

    /// Returns the whole slice, from its beginning.
    pub fn original(&self) -> (s: &'b [u8])
        ensures
            s@ == (*self.buf_view())@,
    {
        *self.buf
    }

    /// Returns the bytes from the cursor to the end of the slice.
    pub fn as_slice(&self) -> (s: &'b [u8])
        requires
            self.wf(),
        ensures
            s@ == self.rest_view(),
    {
        let all: &'b [u8] = *self.buf;
        let s = &all[self.steps..all.len()];
        assert(s@ =~= self.rest_view());
        s
    }

    /// Steps over `n` more bytes, which must be within the slice.
    pub fn advance(&mut self, n: usize)
        requires
            old(self).wf(),
            old(self).steps_view() + n <= (*old(self).buf_view())@.len(),
        ensures
            final(self).wf(),
            final(self).buf_view() == old(self).buf_view(),
            final(self).steps_view() == old(self).steps_view() + n,
    {
        let _ = self.buf.len();
        self.steps = self.steps + n;
    }

    /// Advances the slice past the bytes the cursor has stepped over, and puts the cursor back
    /// at the beginning of the slice.
    pub fn advance_buf(&mut self)
        requires
            old(self).wf(),
        ensures
            final(self).wf(),
            (*final(self).buf_view())@ == (*old(self).buf_view())@.skip(old(self).steps_view() as int),
            *final(final(self).buf_view()) == *final(old(self).buf_view()),
            final(self).steps_view() == 0,
    {
        let buf: &'b [u8] = *self.buf;
        *self.buf = &buf[self.steps..buf.len()];
        self.steps = 0;
        assert((**self.buf)@ =~= (*old(self).buf_view())@.skip(old(self).steps_view() as int));
    }
}

} // verus!
