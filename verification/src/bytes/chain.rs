//! A buffer adaptor that reads one buffer after another.
use vstd::prelude::*;

use super::{saturated, Buf, Bytes};

verus! {

/// A `Buf` adapter which chains two buffers: all bytes of the first, then those of the second.
///
/// This struct is generally created by calling `chain()` on `Buf`.
#[derive(Debug)]
pub struct Chain<T, U> {
    a: T,
    b: U,
}

impl<T, U> Chain<T, U> {
    /// The first buffer.
    pub closed spec fn first_view(&self) -> T {
        self.a
    }

    /// The second buffer.
    pub closed spec fn last_view(&self) -> U {
        self.b
    }

    /// Creates an adaptor that reads `a`, then `b`.
    pub fn new(a: T, b: U) -> (c: Self)
        ensures
            c.first_view() == a,
            c.last_view() == b,
    {
        Chain { a, b }
    }

    /// Consumes this `Chain`, returning the underlying values.
    pub fn into_inner(self) -> (r: (T, U))
        ensures
            r == (self.first_view(), self.last_view()),
    {
        (self.a, self.b)
    }
}

impl<T: Buf, U: Buf> Buf for Chain<T, U> {
    open spec fn buf_view(&self) -> Seq<u8> {
        self.first_view().buf_view() + self.last_view().buf_view()
    }

    fn remaining(&self) -> (n: usize) {
        self.a.remaining().saturating_add(self.b.remaining())
    }

    fn chunk(&self) -> (c: &[u8]) {
        if self.a.has_remaining() {
            self.a.chunk()
        } else {
            assert(self.buf_view() =~= self.b.buf_view());
            self.b.chunk()
        }
    }

    /// Advances the first buffer as far as it goes, then the second buffer by the rest.
    fn advance(&mut self, cnt: usize)
        ensures
            ({
                let first = old(self).first_view().buf_view();
                let last = old(self).last_view().buf_view();
                &&& cnt <= first.len() ==> final(self).first_view().buf_view() == first.skip(
                    cnt as int,
                ) && final(self).last_view().buf_view() == last
                &&& saturated(first.len()) > cnt ==> final(self).last_view() == old(self).last_view()
                &&& cnt > first.len() ==> final(self).first_view().buf_view().len() == 0
                    && final(self).last_view().buf_view() == last.skip(cnt - first.len())
            }),
    {
        let a_rem = self.a.remaining();
        let first = if a_rem < cnt {
            a_rem
        } else {
            cnt
        };
        self.a.advance(first);
        let ghost last = self.b.buf_view();
        if cnt >= a_rem {
            self.b.advance(cnt - a_rem);
            assert(last.skip(0) =~= last);
        }
        assert(self.buf_view() =~= old(self).buf_view().skip(cnt as int));
    }

    fn copy_to_bytes(&mut self, len: usize) -> (b: Bytes) {
        let a_rem = self.a.remaining();
        if a_rem >= len {
            let b = self.a.copy_to_bytes(len);
            assert(b@ =~= old(self).buf_view().take(len as int));
            assert(self.buf_view() =~= old(self).buf_view().skip(len as int));
            b
        } else if a_rem == 0 {
            let b = self.b.copy_to_bytes(len);
            assert(old(self).buf_view() =~= old(self).last_view().buf_view());
            b
        } else {
            let head = self.a.copy_to_bytes(a_rem);
            let tail = self.b.copy_to_bytes(len - a_rem);
            let mut vec = head.into_vec();
            vec.extend_from_slice(tail.as_slice());
            let b = Bytes::from_vec(vec);
            assert(b@ =~= old(self).buf_view().take(len as int));
            assert(self.buf_view() =~= old(self).buf_view().skip(len as int));
            b
        }
    }
}

} // verus!
