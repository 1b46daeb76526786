//! Writing bytes to a buffer.
use vstd::prelude::*;

use super::shared;
use super::{Buf, BytesMut};

verus! {

/// A trait for values that provide sequential write access to bytes.
///
/// Write bytes to a buffer. A buffer stores bytes in memory such that write operations are
/// infallible.
pub trait BufMut {
    /// The bytes written to the buffer.
    spec fn buf_mut_view(&self) -> Seq<u8>;

    /// `true` when `n` more bytes can be written to the buffer.
    spec fn put_fits(&self, n: nat) -> bool;

    /// Returns the number of bytes that can be written from the current position until the end
    /// of the buffer is reached.
    fn remaining_mut(&self) -> (n: usize)
        ensures
            n == isize::MAX - self.buf_mut_view().len(),
    ;

    /// Returns true if there is space in `self` for more bytes.
    fn has_remaining_mut(&self) -> (b: bool)
        ensures
            b == (self.buf_mut_view().len() < isize::MAX),
    {
        self.remaining_mut() > 0
    }

    /// Transfer bytes into `self` from `src` and advance the cursor by the number of bytes
    /// written.
    fn put<T: Buf>(&mut self, src: T)
        requires
            old(self).put_fits(src.buf_view().len()),
        ensures
            final(self).buf_mut_view() == old(self).buf_mut_view() + src.buf_view(),
    ;

    /// Transfer bytes into `self` from `src` and advance the cursor by the number of bytes
    /// written.
    fn put_slice(&mut self, src: &[u8])
        requires
            old(self).put_fits(src@.len()),
        ensures
            final(self).buf_mut_view() == old(self).buf_mut_view() + src@,
    ;
}

impl BufMut for Vec<u8> {
    open spec fn buf_mut_view(&self) -> Seq<u8> {
        self@
    }

    open spec fn put_fits(&self, n: nat) -> bool {
        self@.len() + n <= isize::MAX
    }

    fn remaining_mut(&self) -> (n: usize) {
        let _ = shared::vec_capacity(self);
        (isize::MAX as usize) - self.len()
    }

    fn put<T: Buf>(&mut self, src: T) {
        let mut src = src;
        let ghost all = src.buf_view();
        let ghost prev = self@;
        let ghost mut k: int = 0;
        assert(all.skip(0) =~= all);
        assert(prev + all.take(0) =~= prev);
        while src.has_remaining()
            invariant
                prev.len() + all.len() <= isize::MAX,
                0 <= k <= all.len(),
                all.skip(k) == src.buf_view(),
                self@ == prev + all.take(k),
            decreases src.buf_view().len(),
        {
            let s = src.chunk();
            let l = s.len();
            self.extend_from_slice(s);
            src.advance(l);
            assert(all.skip(k + l) =~= src.buf_view());
            assert(self@ =~= prev + all.take(k + l));
            proof {
                k = k + l;
            }
        }
        assert(all.take(k) =~= all);
    }

    fn put_slice(&mut self, src: &[u8]) {
        self.extend_from_slice(src);
    }
}

impl BufMut for BytesMut {
    open spec fn buf_mut_view(&self) -> Seq<u8> {
        self@
    }

    open spec fn put_fits(&self, n: nat) -> bool {
        self.reserve_fits(n)
    }

    fn remaining_mut(&self) -> (n: usize) {
        (isize::MAX as usize) - self.len()
    }

    fn put<T: Buf>(&mut self, src: T) {
        let mut src = src;
        if !src.has_remaining() {
            // nothing to write
            assert(self@ =~= old(self)@ + src.buf_view());
        } else if self.capacity() == 0 {
            // when capacity is zero, try reusing the allocation of `src`
            let n = src.remaining();
            let src_copy = src.copy_to_bytes(n);
            if src_copy.is_unique() {
                assert(old(self)@ =~= Seq::<u8>::empty());
                *self = src_copy.into_mut();
            } else {
                self.extend_from_slice(src_copy.as_slice());
            }
        } else {
            let n = src.remaining();
            self.reserve(n);
            let ghost all = src.buf_view();
            let ghost prev = self@;
            let ghost mut k: int = 0;
            assert(all.skip(0) =~= all);
            assert(prev + all.take(0) =~= prev);
            while src.has_remaining()
                invariant
                    self.capacity_view() - self@.len() >= src.buf_view().len(),
                    0 <= k <= all.len(),
                    all.skip(k) == src.buf_view(),
                    self@ == prev + all.take(k),
                decreases src.buf_view().len(),
            {
                let s = src.chunk();
                let l = s.len();
                self.extend_from_slice(s);
                src.advance(l);
                assert(all.skip(k + l) =~= src.buf_view());
                assert(self@ =~= prev + all.take(k + l));
                proof {
                    k = k + l;
                }
            }
            assert(all.take(k) =~= all);
        }
    }

    fn put_slice(&mut self, src: &[u8]) {
        self.extend_from_slice(src);
    }
}

} // verus!
