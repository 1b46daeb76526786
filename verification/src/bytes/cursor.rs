//! A cursor over borrowed bytes.
use vstd::prelude::*;
use vstd::std_specs::convert::FromSpecImpl;

use super::{Bytes, BytesMut};

verus! {

/// Bytes cursor.
///
/// A cursor holds borrowed bytes, the number of bytes it has stepped over (`steps`) and the end
/// of the bytes it may read. The bytes before the cursor are the advanced slice, the bytes from
/// the cursor to the end are the remaining slice.
#[derive(Debug, Clone)]
pub struct Cursor<'a> {
    buf: &'a [u8],
    cursor: usize,
    end: usize,
}

impl<'a> Cursor<'a> {
    /// The well-formedness of a cursor: the cursor is within the end, the end within the bytes.
    pub closed spec fn wf(&self) -> bool {
        self.cursor <= self.end <= self.buf@.len()
    }

    /// The bytes the cursor was created with, up to its end.
    pub closed spec fn original_view(&self) -> Seq<u8> {
        self.buf@.subrange(0, self.end as int)
    }

    /// How many bytes the cursor has stepped forward.
    pub closed spec fn steps_view(&self) -> nat {
        self.cursor as nat
    }

    /// The bytes from the cursor to the end.
    pub open spec fn rest_view(&self) -> Seq<u8> {
        self.original_view().skip(self.steps_view() as int)
    }

    /// The bytes the cursor has stepped over.
    pub open spec fn advanced_view(&self) -> Seq<u8> {
        self.original_view().take(self.steps_view() as int)
    }

    /// A well-formed cursor never stands past its end.
    pub proof fn lemma_wf(&self)
        requires
            self.wf(),
        ensures
            self.steps_view() <= self.original_view().len(),
    {
    }

    /// Creates new [`Cursor`] from initialized bytes.
    pub fn new(buf: &'a [u8]) -> (c: Self)
        ensures
            c.wf(),
            c.original_view() == buf@,
            c.steps_view() == 0,
    {
        let c = Cursor { buf, cursor: 0, end: buf.len() };
        assert(c.original_view() =~= buf@);
        c
    }

    /// Creates new [`Cursor`] with starting cursor at the end of the buffer.
    ///
    /// Following [`next()`][Cursor::next] call will returns [`None`].
    pub fn from_end(buf: &'a [u8]) -> (c: Self)
        ensures
            c.wf(),
            c.original_view() == buf@,
            c.steps_view() == buf@.len(),
    {
        let c = Cursor { buf, cursor: buf.len(), end: buf.len() };
        assert(c.original_view() =~= buf@);
        c
    }

    // ===== Reference =====

    /// Returns how many cursor has stepped forward.
    pub fn steps(&self) -> (n: usize)
        requires
            self.wf(),
        ensures
            n == self.steps_view(),
    {
        self.cursor
    }

    /// Returns the remaining length of the bytes.
    pub fn remaining(&self) -> (n: usize)
        requires
            self.wf(),
        ensures
            n == self.original_view().len() - self.steps_view(),
    {
        self.end - self.cursor
    }

    /// Returns `true` if there is at least one remaining bytes.
    pub fn has_remaining(&self) -> (b: bool)
        requires
            self.wf(),
        ensures
            b == (self.steps_view() < self.original_view().len()),
    {
        self.cursor < self.end
    }

    /// Returns reference to the original bytes.
    pub fn original(&self) -> (s: &'a [u8])
        requires
            self.wf(),
        ensures
            s@ == self.original_view(),
    {
        let buf: &'a [u8] = self.buf;
        &buf[0..self.end]
    }

    /// Returns reference to the already advanced slice.
    pub fn advanced_slice(&self) -> (s: &'a [u8])
        requires
            self.wf(),
        ensures
            s@ == self.advanced_view(),
    {
        let buf: &'a [u8] = self.buf;
        let s = &buf[0..self.cursor];
        assert(s@ =~= self.advanced_view());
        s
    }

    /// Returns reference to the remaining bytes.
    pub fn as_slice(&self) -> (s: &'a [u8])
        requires
            self.wf(),
        ensures
            s@ == self.rest_view(),
    {
        let buf: &'a [u8] = self.buf;
        let s = &buf[self.cursor..self.end];
        assert(s@ =~= self.rest_view());
        s
    }

    // ===== Peek =====

    /// Returns the next byte without advancing the cursor.
    ///
    /// Returns [`None`] if there is no remaining bytes.
    pub fn peek(&self) -> (r: Option<u8>)
        requires
            self.wf(),
        ensures
            self.rest_view().len() > 0 ==> r == Some(self.rest_view()[0]),
            self.rest_view().len() == 0 ==> r is None,
    {
        if self.cursor < self.end {
            Some(self.buf[self.cursor])
        } else {
            None
        }
    }

    /// Returns the next `n`-th byte without advancing the cursor.
    ///
    /// Returns [`None`] if `n` is more than or equal to remaining bytes.
    ///
    /// The count starts from zero, so `peek_nth(0)` returns the first value, `peek_nth(1)` the
    /// second, and so on.
    pub fn peek_nth(&self, n: usize) -> (r: Option<u8>)
        requires
            self.wf(),
        ensures
            n < self.rest_view().len() ==> r == Some(self.rest_view()[n as int]),
            n >= self.rest_view().len() ==> r is None,
    {
        if n < self.end - self.cursor {
            Some(self.buf[self.cursor + n])
        } else {
            None
        }
    }

    /// Returns reference to the next `N` bytes without advancing the cursor.
    ///
    /// Returns [`None`] if `N` is more than remaining bytes.
    pub fn peek_chunk<const N: usize>(&self) -> (r: Option<&'a [u8; N]>)
        requires
            self.wf(),
        ensures
            N <= self.rest_view().len() ==> (r matches Some(a) && a@ == self.rest_view().take(
                N as int,
            )),
            N > self.rest_view().len() ==> r is None,
    {
        let rest = self.as_slice();
        let r = rest.first_chunk::<N>();
        proof {
            if N <= self.rest_view().len() {
                assert(rest@.subrange(0, N as int) =~= self.rest_view().take(N as int));
            }
        }
        r
    }

    // ===== Peek Prev =====

    /// Returns the previous byte without stepping back the cursor.
    ///
    /// Returns [`None`] if cursor is at the beginning of the bytes.
    pub fn peek_prev(&self) -> (r: Option<u8>)
        requires
            self.wf(),
        ensures
            self.steps_view() > 0 ==> r == Some(self.advanced_view().last()),
            self.steps_view() == 0 ==> r is None,
    {
        if self.cursor != 0 {
            Some(self.buf[self.cursor - 1])
        } else {
            None
        }
    }

    /// Returns references to the previous `N` bytes without stepping back the cursor.
    ///
    /// Returns [`None`] if `N` is more than [`steps()`][Self::steps].
    pub fn peek_prev_chunk<const N: usize>(&self) -> (r: Option<&'a [u8; N]>)
        requires
            self.wf(),
        ensures
            N <= self.steps_view() ==> (r matches Some(a) && a@ == self.advanced_view().skip(
                self.steps_view() - N,
            )),
            N > self.steps_view() ==> r is None,
    {
        if N <= self.cursor {
            let buf: &'a [u8] = self.buf;
            let prev = &buf[self.cursor - N..self.cursor];
            let r = prev.first_chunk::<N>();
            proof {
                assert(prev@.subrange(0, N as int) =~= self.advanced_view().skip(
                    self.steps_view() - N,
                ));
            }
            r
        } else {
            None
        }
    }

    // ===== Next =====

    /// Returns the next byte and advance the cursor.
    ///
    /// Returns [`None`] if there is no remaining bytes.
    pub fn next(&mut self) -> (r: Option<u8>)
        requires
            old(self).wf(),
        ensures
            final(self).wf(),
            final(self).original_view() == old(self).original_view(),
            old(self).rest_view().len() > 0 ==> r == Some(old(self).rest_view()[0])
                && final(self).steps_view() == old(self).steps_view() + 1,
            old(self).rest_view().len() == 0 ==> r is None && final(self).steps_view()
                == old(self).steps_view(),
    {
        if self.cursor < self.end {
            let val = self.buf[self.cursor];
            self.cursor = self.cursor + 1;
            Some(val)
        } else {
            None
        }
    }

    /// Returns references to the next `N` bytes and advance the cursor by `N`.
    ///
    /// Returns [`None`] if `N` is more than remaining bytes.
    pub fn next_chunk<const N: usize>(&mut self) -> (r: Option<&'a [u8; N]>)
        requires
            old(self).wf(),
        ensures
            final(self).wf(),
            final(self).original_view() == old(self).original_view(),
            N <= old(self).rest_view().len() ==> (r matches Some(a) && a@ == old(
                self,
            ).rest_view().take(N as int)) && final(self).steps_view() == old(self).steps_view()
                + N,
            N > old(self).rest_view().len() ==> r is None && final(self).steps_view() == old(
                self,
            ).steps_view(),
    {
        let r = self.peek_chunk::<N>();
        if r.is_some() {
            self.cursor = self.cursor + N;
        }
        r
    }

    // ===== Prev =====

    /// Returns the previous byte and step back the cursor.
    ///
    /// Returns [`None`] if cursor is at the beginning of the bytes.
    pub fn prev(&mut self) -> (r: Option<u8>)
        requires
            old(self).wf(),
        ensures
            final(self).wf(),
            final(self).original_view() == old(self).original_view(),
            old(self).steps_view() > 0 ==> r == Some(old(self).advanced_view().last())
                && final(self).steps_view() == old(self).steps_view() - 1,
            old(self).steps_view() == 0 ==> r is None && final(self).steps_view() == 0,
    {
        if self.cursor != 0 {
            self.cursor = self.cursor - 1;
            Some(self.buf[self.cursor])
        } else {
            None
        }
    }

    /// Returns references to the previous `N` bytes and step back the cursor by `N`.
    ///
    /// Returns [`None`] if `N` is more than [`steps()`][Self::steps].
    pub fn prev_chunk<const N: usize>(&mut self) -> (r: Option<&'a [u8; N]>)
        requires
            old(self).wf(),
        ensures
            final(self).wf(),
            final(self).original_view() == old(self).original_view(),
            N <= old(self).steps_view() ==> (r matches Some(a) && a@ == old(
                self,
            ).advanced_view().skip(old(self).steps_view() - N)) && final(self).steps_view() == old(
                self,
            ).steps_view() - N,
            N > old(self).steps_view() ==> r is None && final(self).steps_view() == old(
                self,
            ).steps_view(),
    {
        let r = self.peek_prev_chunk::<N>();
        if r.is_some() {
            self.cursor = self.cursor - N;
        }
        r
    }

    // ===== Advance / Step Back =====

    /// Advance cursor forward by `n`.
    ///
    /// `n` must be less than or equal to remaining bytes.
    pub fn advance(&mut self, n: usize)
        requires
            old(self).wf(),
            n <= old(self).rest_view().len(),
        ensures
            final(self).wf(),
            final(self).original_view() == old(self).original_view(),
            final(self).steps_view() == old(self).steps_view() + n,
    {
        self.cursor = self.cursor + n;
    }

    /// Advance cursor to the end.
    ///
    /// This is used when caller wants to iterate backwards.
    pub fn advance_to_end(&mut self)
        requires
            old(self).wf(),
        ensures
            final(self).wf(),
            final(self).original_view() == old(self).original_view(),
            final(self).steps_view() == old(self).original_view().len(),
    {
        self.cursor = self.end;
    }

    /// Move cursor backwards by `n`.
    ///
    /// `n` must be less than or equal to [`steps()`][Self::steps].
    pub fn step_back(&mut self, n: usize)
        requires
            old(self).wf(),
            n <= old(self).steps_view(),
        ensures
            final(self).wf(),
            final(self).original_view() == old(self).original_view(),
            final(self).steps_view() == old(self).steps_view() - n,
    {
        self.cursor = self.cursor - n;
    }

    /// Take current cursor to `len` of the slice.
    ///
    /// If `len` is more than remaining bytes, this is a noop.
    pub fn truncate(&mut self, len: usize)
        requires
            old(self).wf(),
        ensures
            final(self).wf(),
            final(self).steps_view() == old(self).steps_view(),
            len < old(self).rest_view().len() ==> final(self).original_view() == old(
                self,
            ).original_view().take(old(self).steps_view() + len),
            len >= old(self).rest_view().len() ==> final(self).original_view() == old(
                self,
            ).original_view(),
    {
        if len < self.end - self.cursor {
            let ghost prev = self.original_view();
            self.end = self.cursor + len;
            assert(self.original_view() =~= prev.take(self.cursor + len));
        }
    }

    /// Clone the cursor.
    pub fn fork(&self) -> (c: Self)
        requires
            self.wf(),
        ensures
            c.wf(),
            c.original_view() == self.original_view(),
            c.steps_view() == self.steps_view(),
    {
        Cursor { buf: self.buf, cursor: self.cursor, end: self.end }
    }

    // ===== Split =====

    /// Returns the first and all the rest of the bytes.
    ///
    /// This can be used after cursor found a delimiter. Cursor must have at least one remaining
    /// byte.
    pub fn split_first(&self) -> (r: (u8, &'a [u8]))
        requires
            self.wf(),
            self.rest_view().len() > 0,
        ensures
            r.0 == self.rest_view()[0],
            r.1@ == self.rest_view().drop_first(),
    {
        let buf: &'a [u8] = self.buf;
        let rest = &buf[self.cursor + 1..self.end];
        assert(rest@ =~= self.rest_view().drop_first());
        (buf[self.cursor], rest)
    }

    /// Returns the last and all the rest of the advanced bytes.
    ///
    /// This can be used after cursor found a delimiter. Cursor must have advanced at least once.
    pub fn split_last_advanced(&self) -> (r: (u8, &'a [u8]))
        requires
            self.wf(),
            self.steps_view() > 0,
        ensures
            r.0 == self.advanced_view().last(),
            r.1@ == self.advanced_view().drop_last(),
    {
        let buf: &'a [u8] = self.buf;
        let rest = &buf[0..self.cursor - 1];
        assert(rest@ =~= self.advanced_view().drop_last());
        (buf[self.cursor - 1], rest)
    }
}

impl<'a> From<&'a [u8]> for Cursor<'a> {
    /// A cursor at the beginning of the bytes.
    fn from(value: &'a [u8]) -> (c: Self)
        ensures
            c.wf(),
            c.original_view() == value@,
            c.steps_view() == 0,
    {
        Cursor::new(value)
    }
}

impl<'a> FromSpecImpl<&'a [u8]> for Cursor<'a> {
    open spec fn obeys_from_spec() -> bool {
        false
    }

    open spec fn from_spec(v: &'a [u8]) -> Self {
        arbitrary()
    }
}

impl<'a> From<&'a Bytes> for Cursor<'a> {
    /// A cursor at the beginning of the bytes.
    fn from(value: &'a Bytes) -> (c: Self)
        ensures
            c.wf(),
            c.original_view() == value@,
            c.steps_view() == 0,
    {
        Cursor::new(value.as_slice())
    }
}

impl<'a> FromSpecImpl<&'a Bytes> for Cursor<'a> {
    open spec fn obeys_from_spec() -> bool {
        false
    }

    open spec fn from_spec(v: &'a Bytes) -> Self {
        arbitrary()
    }
}

impl<'a> From<&'a BytesMut> for Cursor<'a> {
    /// A cursor at the beginning of the bytes.
    fn from(value: &'a BytesMut) -> (c: Self)
        ensures
            c.wf(),
            c.original_view() == value@,
            c.steps_view() == 0,
    {
        Cursor::new(value.as_slice())
    }
}

impl<'a> FromSpecImpl<&'a BytesMut> for Cursor<'a> {
    open spec fn obeys_from_spec() -> bool {
        false
    }

    open spec fn from_spec(v: &'a BytesMut) -> Self {
        arbitrary()
    }
}

} // verus!
