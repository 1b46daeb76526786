//! A buffer adaptor that reads at most a limited number of bytes.
use vstd::prelude::*;

use super::{Buf, Bytes};

verus! {

/// A `Buf` adapter which limits the bytes read from an underlying buffer.
///
/// This struct is generally created by calling `take()` on `Buf`.
#[derive(Debug)]
pub struct Take<T> {
    inner: T,
    limit: usize,
}

impl<T> Take<T> {
    /// The underlying buffer.
    pub closed spec fn inner_view(&self) -> T {
        self.inner
    }

    /// The largest number of bytes that can still be read.
    pub closed spec fn limit_view(&self) -> nat {
        self.limit as nat
    }

    /// Creates an adaptor that reads at most `limit` bytes from `inner`.
    pub fn new(inner: T, limit: usize) -> (t: Self)
        ensures
            t.inner_view() == inner,
            t.limit_view() == limit,
    {
        Take { inner, limit }
    }

    /// Consumes this `Take`, returning the underlying value.
    pub fn into_inner(self) -> (t: T)
        ensures
            t == self.inner_view(),
    {
        self.inner
    }
}

/// The smaller of two numbers.
pub open spec fn min_nat(a: nat, b: nat) -> nat {
    if a <= b {
        a
    } else {
        b
    }
}

impl<T: Buf> Buf for Take<T> {
    open spec fn buf_view(&self) -> Seq<u8> {
        self.inner_view().buf_view().take(
            min_nat(self.limit_view(), self.inner_view().buf_view().len()) as int,
        )
    }

    fn remaining(&self) -> (n: usize) {
        let rem = self.inner.remaining();
        if rem < self.limit {
            rem
        } else {
            self.limit
        }
    }

    fn chunk(&self) -> (c: &[u8]) {
        let bytes = self.inner.chunk();
        let n = if bytes.len() < self.limit {
            bytes.len()
        } else {
            self.limit
        };
        let c = &bytes[0..n];
        assert(c@ =~= self.buf_view().take(c@.len() as int));
        c
    }

    /// Advances the underlying buffer, and lowers the limit by as many bytes.
    fn advance(&mut self, cnt: usize)
        ensures
            final(self).inner_view().buf_view() == old(self).inner_view().buf_view().skip(
                cnt as int,
            ),
            final(self).limit_view() == old(self).limit_view() - cnt,
    {
        let ghost prev = self.inner.buf_view();
        self.inner.advance(cnt);
        self.limit = self.limit - cnt;
        assert(self.buf_view() =~= old(self).buf_view().skip(cnt as int));
    }

    fn copy_to_bytes(&mut self, len: usize) -> (b: Bytes) {
        let ghost prev = self.inner.buf_view();
        let b = self.inner.copy_to_bytes(len);
        self.limit = self.limit - len;
        assert(b@ =~= old(self).buf_view().take(len as int));
        assert(self.buf_view() =~= old(self).buf_view().skip(len as int));
        b
    }
}

} // verus!
