//! Reading bytes from a buffer.
use vstd::prelude::*;

use super::endian::{
    be_value, decode_be, decode_le, decode_ne, le_value, ne_value, lemma_pow256_values, to_i128, to_i16,
    to_i32, to_i64, to_i8, to_signed,
};
use super::{Bytes, BytesMut, Chain, Take};

verus! {

/// A length as `usize`, saturated at `usize::MAX`.
pub open spec fn saturated(n: nat) -> int {
    if n <= usize::MAX {
        n as int
    } else {
        usize::MAX as int
    }
}

/// Read bytes from a buffer.
///
/// A buffer stores bytes in memory such that read operations are infallible. The underlying
/// storage may or may not be in contiguous memory. A `Buf` value is a cursor into the buffer.
/// Reading from `Buf` advances the cursor position. It can be thought of as an efficient
/// `Iterator` for collections of bytes.
///
/// The simplest `Buf` is a `&[u8]`.
pub trait Buf {
    /// The bytes between the current position and the end of the buffer.
    spec fn buf_view(&self) -> Seq<u8>;

    /// Returns the number of bytes between the current position and the end of the buffer,
    /// saturated at `usize::MAX`.
    fn remaining(&self) -> (n: usize)
        ensures
            n == saturated(self.buf_view().len()),
    ;

    /// Returns a slice starting at the current position and of length between 0 and
    /// `Buf::remaining()`.
    ///
    /// The slice is empty if and only if no byte remains.
    fn chunk(&self) -> (c: &[u8])
        ensures
            c@.len() <= self.buf_view().len(),
            c@ == self.buf_view().take(c@.len() as int),
            (c@.len() == 0) == (self.buf_view().len() == 0),
    ;

    /// Advance the internal cursor of the Buf.
    ///
    /// The next call to `chunk()` will return a slice starting `cnt` bytes further into the
    /// underlying buffer. `cnt` must be at most the number of remaining bytes.
    fn advance(&mut self, cnt: usize)
        requires
            cnt <= old(self).buf_view().len(),
        ensures
            final(self).buf_view() == old(self).buf_view().skip(cnt as int),
    ;

    /// Returns `true` if there are any more bytes to consume.
    ///
    /// This is equivalent to `self.remaining() != 0`.
    fn has_remaining(&self) -> (b: bool)
        ensures
            b == (self.buf_view().len() > 0),
    {
        self.remaining() > 0
    }

    /// Copies bytes from `self` into `dst`.
    ///
    /// The cursor is advanced by the number of bytes copied. `self` must have enough remaining
    /// bytes to fill `dst`.
    fn copy_to_slice(&mut self, dst: &mut [u8])
        requires
            old(dst)@.len() <= old(self).buf_view().len(),
        ensures
            final(dst)@ == old(self).buf_view().take(old(dst)@.len() as int),
            final(self).buf_view() == old(self).buf_view().skip(old(dst)@.len() as int),
    {
        let ghost src = self.buf_view();
        let len = dst.len();
        let mut done: usize = 0;
        while done < len
            invariant
                len == dst@.len() == old(dst)@.len(),
                len <= src.len(),
                done <= len,
                self.buf_view() == src.skip(done as int),
                dst@.take(done as int) == src.take(done as int),
            decreases len - done,
        {
            let chunk = self.chunk();
            let cnt = if chunk.len() < len - done {
                chunk.len()
            } else {
                len - done
            };
            let mut i: usize = 0;
            while i < cnt
                invariant
                    len == dst@.len(),
                    done + cnt <= len,
                    cnt <= chunk@.len() <= src.len() - done,
                    chunk@ == src.skip(done as int).take(chunk@.len() as int),
                    i <= cnt,
                    len <= src.len(),
                    dst@.take((done + i) as int) == src.take((done + i) as int),
                decreases cnt - i,
            {
                let ghost before = dst@;
                assert(chunk@[i as int] == src.skip(done as int).take(chunk@.len() as int)[i as int]);
                dst[done + i] = chunk[i];
                assert forall|k: int| 0 <= k < done + i implies before[k] == src[k] by {
                    assert(before.take((done + i) as int)[k] == before[k]);
                    assert(src.take((done + i) as int)[k] == src[k]);
                }
                assert(dst@.take((done + i + 1) as int) =~= src.take((done + i + 1) as int));
                i = i + 1;
            }
            self.advance(cnt);
            assert(self.buf_view() =~= src.skip((done + cnt) as int));
            done = done + cnt;
        }
        assert(dst@ =~= dst@.take(len as int));
    }

    /// Creates an adaptor which will read at most `limit` bytes from `self`.
    fn take(self, limit: usize) -> (t: Take<Self>)
        where Self: Sized,
        ensures
            t.inner_view() == self,
            t.limit_view() == limit,
    {
        Take::new(self, limit)
    }

    /// Creates an adaptor which will chain this buffer with another.
    ///
    /// The returned `Buf` instance will first consume all bytes from `self`. Afterwards the
    /// output is equivalent to the output of next.
    fn chain<U>(self, next: U) -> (c: Chain<Self, U>)
        where Self: Sized,
        ensures
            c.first_view() == self,
            c.last_view() == next,
    {
        Chain::new(self, next)
    }

    /// Consumes `len` bytes inside self and returns new instance of [`Bytes`] with this data.
    ///
    /// This function may be optimized by the underlying type to avoid actual copies.
    fn copy_to_bytes(&mut self, len: usize) -> (b: Bytes)
        requires
            len <= old(self).buf_view().len(),
        ensures
            b@ == old(self).buf_view().take(len as int),
            final(self).buf_view() == old(self).buf_view().skip(len as int),
    {
        let ghost src = self.buf_view();
        let mut vec: Vec<u8> = Vec::new();
        while vec.len() < len
            invariant
                len <= src.len(),
                vec@.len() <= len,
                vec@ == src.take(vec@.len() as int),
                self.buf_view() == src.skip(vec@.len() as int),
            decreases len - vec@.len(),
        {
            let done = vec.len();
            let chunk = self.chunk();
            let cnt = if chunk.len() < len - done {
                chunk.len()
            } else {
                len - done
            };
            vec.extend_from_slice(&chunk[0..cnt]);
            assert(vec@ =~= src.take((done + cnt) as int));
            self.advance(cnt);
            assert(self.buf_view() =~= src.skip((done + cnt) as int));
        }
        Bytes::from_vec(vec)
    }

    /// Get `u8` in big endian.
    ///
    /// Returns `None` if there is not enough remaining bytes.
    fn try_get_u8(&mut self) -> (r: Option<u8>)
        ensures
            r is Some == (1 <= old(self).buf_view().len()),
            r matches Some(v) ==> v == be_value(old(self).buf_view().take(1)),
            r is Some ==> final(self).buf_view() == old(self).buf_view().skip(1),
            r is None ==> final(self).buf_view() == old(self).buf_view(),
    {
        proof {
            lemma_pow256_values();
        }
        if self.remaining() < 1 {
            return None;
        }
        let mut a = [0u8; 1];
        self.copy_to_slice(&mut a);
        Some(decode_be(a.as_slice()) as u8)
    }

    /// Get `u8` in big endian.
    ///
    /// At least 1 bytes must remain.
    fn get_u8(&mut self) -> (v: u8)
        requires
            1 <= old(self).buf_view().len(),
        ensures
            v == be_value(old(self).buf_view().take(1)),
            final(self).buf_view() == old(self).buf_view().skip(1),
    {
        match self.try_get_u8() {
            Some(v) => v,
            None => {
                proof {
                    assert(false);
                }
                0
            }
        }
    }

    /// Get `u8` in little endian.
    ///
    /// Returns `None` if there is not enough remaining bytes.
    fn try_get_u8_le(&mut self) -> (r: Option<u8>)
        ensures
            r is Some == (1 <= old(self).buf_view().len()),
            r matches Some(v) ==> v == le_value(old(self).buf_view().take(1)),
            r is Some ==> final(self).buf_view() == old(self).buf_view().skip(1),
            r is None ==> final(self).buf_view() == old(self).buf_view(),
    {
        proof {
            lemma_pow256_values();
        }
        if self.remaining() < 1 {
            return None;
        }
        let mut a = [0u8; 1];
        self.copy_to_slice(&mut a);
        Some(decode_le(a.as_slice()) as u8)
    }

    /// Get `u8` in little endian.
    ///
    /// At least 1 bytes must remain.
    fn get_u8_le(&mut self) -> (v: u8)
        requires
            1 <= old(self).buf_view().len(),
        ensures
            v == le_value(old(self).buf_view().take(1)),
            final(self).buf_view() == old(self).buf_view().skip(1),
    {
        match self.try_get_u8_le() {
            Some(v) => v,
            None => {
                proof {
                    assert(false);
                }
                0
            }
        }
    }

    /// Get `u8` in native endian.
    ///
    /// Returns `None` if there is not enough remaining bytes.
    fn try_get_u8_ne(&mut self) -> (r: Option<u8>)
        ensures
            r is Some == (1 <= old(self).buf_view().len()),
            r matches Some(v) ==> v == ne_value(old(self).buf_view().take(1)),
            r is Some ==> final(self).buf_view() == old(self).buf_view().skip(1),
            r is None ==> final(self).buf_view() == old(self).buf_view(),
    {
        proof {
            lemma_pow256_values();
        }
        if self.remaining() < 1 {
            return None;
        }
        let mut a = [0u8; 1];
        self.copy_to_slice(&mut a);
        Some(decode_ne(a.as_slice()) as u8)
    }

    /// Get `u8` in native endian.
    ///
    /// At least 1 bytes must remain.
    fn get_u8_ne(&mut self) -> (v: u8)
        requires
            1 <= old(self).buf_view().len(),
        ensures
            v == ne_value(old(self).buf_view().take(1)),
            final(self).buf_view() == old(self).buf_view().skip(1),
    {
        match self.try_get_u8_ne() {
            Some(v) => v,
            None => {
                proof {
                    assert(false);
                }
                0
            }
        }
    }

    /// Get `i8` in big endian.
    ///
    /// Returns `None` if there is not enough remaining bytes.
    fn try_get_i8(&mut self) -> (r: Option<i8>)
        ensures
            r is Some == (1 <= old(self).buf_view().len()),
            r matches Some(v) ==> v as int == to_signed(be_value(old(self).buf_view().take(1)), 1),
            r is Some ==> final(self).buf_view() == old(self).buf_view().skip(1),
            r is None ==> final(self).buf_view() == old(self).buf_view(),
    {
        proof {
            lemma_pow256_values();
        }
        if self.remaining() < 1 {
            return None;
        }
        let mut a = [0u8; 1];
        self.copy_to_slice(&mut a);
        Some(to_i8(decode_be(a.as_slice()) as u8))
    }

    /// Get `i8` in big endian.
    ///
    /// At least 1 bytes must remain.
    fn get_i8(&mut self) -> (v: i8)
        requires
            1 <= old(self).buf_view().len(),
        ensures
            v as int == to_signed(be_value(old(self).buf_view().take(1)), 1),
            final(self).buf_view() == old(self).buf_view().skip(1),
    {
        match self.try_get_i8() {
            Some(v) => v,
            None => {
                proof {
                    assert(false);
                }
                0
            }
        }
    }

    /// Get `i8` in little endian.
    ///
    /// Returns `None` if there is not enough remaining bytes.
    fn try_get_i8_le(&mut self) -> (r: Option<i8>)
        ensures
            r is Some == (1 <= old(self).buf_view().len()),
            r matches Some(v) ==> v as int == to_signed(le_value(old(self).buf_view().take(1)), 1),
            r is Some ==> final(self).buf_view() == old(self).buf_view().skip(1),
            r is None ==> final(self).buf_view() == old(self).buf_view(),
    {
        proof {
            lemma_pow256_values();
        }
        if self.remaining() < 1 {
            return None;
        }
        let mut a = [0u8; 1];
        self.copy_to_slice(&mut a);
        Some(to_i8(decode_le(a.as_slice()) as u8))
    }

    /// Get `i8` in little endian.
    ///
    /// At least 1 bytes must remain.
    fn get_i8_le(&mut self) -> (v: i8)
        requires
            1 <= old(self).buf_view().len(),
        ensures
            v as int == to_signed(le_value(old(self).buf_view().take(1)), 1),
            final(self).buf_view() == old(self).buf_view().skip(1),
    {
        match self.try_get_i8_le() {
            Some(v) => v,
            None => {
                proof {
                    assert(false);
                }
                0
            }
        }
    }

    /// Get `i8` in native endian.
    ///
    /// Returns `None` if there is not enough remaining bytes.
    fn try_get_i8_ne(&mut self) -> (r: Option<i8>)
        ensures
            r is Some == (1 <= old(self).buf_view().len()),
            r matches Some(v) ==> v as int == to_signed(ne_value(old(self).buf_view().take(1)), 1),
            r is Some ==> final(self).buf_view() == old(self).buf_view().skip(1),
            r is None ==> final(self).buf_view() == old(self).buf_view(),
    {
        proof {
            lemma_pow256_values();
        }
        if self.remaining() < 1 {
            return None;
        }
        let mut a = [0u8; 1];
        self.copy_to_slice(&mut a);
        Some(to_i8(decode_ne(a.as_slice()) as u8))
    }

    /// Get `i8` in native endian.
    ///
    /// At least 1 bytes must remain.
    fn get_i8_ne(&mut self) -> (v: i8)
        requires
            1 <= old(self).buf_view().len(),
        ensures
            v as int == to_signed(ne_value(old(self).buf_view().take(1)), 1),
            final(self).buf_view() == old(self).buf_view().skip(1),
    {
        match self.try_get_i8_ne() {
            Some(v) => v,
            None => {
                proof {
                    assert(false);
                }
                0
            }
        }
    }

    /// Get `u16` in big endian.
    ///
    /// Returns `None` if there is not enough remaining bytes.
    fn try_get_u16(&mut self) -> (r: Option<u16>)
        ensures
            r is Some == (2 <= old(self).buf_view().len()),
            r matches Some(v) ==> v == be_value(old(self).buf_view().take(2)),
            r is Some ==> final(self).buf_view() == old(self).buf_view().skip(2),
            r is None ==> final(self).buf_view() == old(self).buf_view(),
    {
        proof {
            lemma_pow256_values();
        }
        if self.remaining() < 2 {
            return None;
        }
        let mut a = [0u8; 2];
        self.copy_to_slice(&mut a);
        Some(decode_be(a.as_slice()) as u16)
    }

    /// Get `u16` in big endian.
    ///
    /// At least 2 bytes must remain.
    fn get_u16(&mut self) -> (v: u16)
        requires
            2 <= old(self).buf_view().len(),
        ensures
            v == be_value(old(self).buf_view().take(2)),
            final(self).buf_view() == old(self).buf_view().skip(2),
    {
        match self.try_get_u16() {
            Some(v) => v,
            None => {
                proof {
                    assert(false);
                }
                0
            }
        }
    }

    /// Get `u16` in little endian.
    ///
    /// Returns `None` if there is not enough remaining bytes.
    fn try_get_u16_le(&mut self) -> (r: Option<u16>)
        ensures
            r is Some == (2 <= old(self).buf_view().len()),
            r matches Some(v) ==> v == le_value(old(self).buf_view().take(2)),
            r is Some ==> final(self).buf_view() == old(self).buf_view().skip(2),
            r is None ==> final(self).buf_view() == old(self).buf_view(),
    {
        proof {
            lemma_pow256_values();
        }
        if self.remaining() < 2 {
            return None;
        }
        let mut a = [0u8; 2];
        self.copy_to_slice(&mut a);
        Some(decode_le(a.as_slice()) as u16)
    }

    /// Get `u16` in little endian.
    ///
    /// At least 2 bytes must remain.
    fn get_u16_le(&mut self) -> (v: u16)
        requires
            2 <= old(self).buf_view().len(),
        ensures
            v == le_value(old(self).buf_view().take(2)),
            final(self).buf_view() == old(self).buf_view().skip(2),
    {
        match self.try_get_u16_le() {
            Some(v) => v,
            None => {
                proof {
                    assert(false);
                }
                0
            }
        }
    }

    /// Get `u16` in native endian.
    ///
    /// Returns `None` if there is not enough remaining bytes.
    fn try_get_u16_ne(&mut self) -> (r: Option<u16>)
        ensures
            r is Some == (2 <= old(self).buf_view().len()),
            r matches Some(v) ==> v == ne_value(old(self).buf_view().take(2)),
            r is Some ==> final(self).buf_view() == old(self).buf_view().skip(2),
            r is None ==> final(self).buf_view() == old(self).buf_view(),
    {
        proof {
            lemma_pow256_values();
        }
        if self.remaining() < 2 {
            return None;
        }
        let mut a = [0u8; 2];
        self.copy_to_slice(&mut a);
        Some(decode_ne(a.as_slice()) as u16)
    }

    /// Get `u16` in native endian.
    ///
    /// At least 2 bytes must remain.
    fn get_u16_ne(&mut self) -> (v: u16)
        requires
            2 <= old(self).buf_view().len(),
        ensures
            v == ne_value(old(self).buf_view().take(2)),
            final(self).buf_view() == old(self).buf_view().skip(2),
    {
        match self.try_get_u16_ne() {
            Some(v) => v,
            None => {
                proof {
                    assert(false);
                }
                0
            }
        }
    }

    /// Get `i16` in big endian.
    ///
    /// Returns `None` if there is not enough remaining bytes.
    fn try_get_i16(&mut self) -> (r: Option<i16>)
        ensures
            r is Some == (2 <= old(self).buf_view().len()),
            r matches Some(v) ==> v as int == to_signed(be_value(old(self).buf_view().take(2)), 2),
            r is Some ==> final(self).buf_view() == old(self).buf_view().skip(2),
            r is None ==> final(self).buf_view() == old(self).buf_view(),
    {
        proof {
            lemma_pow256_values();
        }
        if self.remaining() < 2 {
            return None;
        }
        let mut a = [0u8; 2];
        self.copy_to_slice(&mut a);
        Some(to_i16(decode_be(a.as_slice()) as u16))
    }

    /// Get `i16` in big endian.
    ///
    /// At least 2 bytes must remain.
    fn get_i16(&mut self) -> (v: i16)
        requires
            2 <= old(self).buf_view().len(),
        ensures
            v as int == to_signed(be_value(old(self).buf_view().take(2)), 2),
            final(self).buf_view() == old(self).buf_view().skip(2),
    {
        match self.try_get_i16() {
            Some(v) => v,
            None => {
                proof {
                    assert(false);
                }
                0
            }
        }
    }

    /// Get `i16` in little endian.
    ///
    /// Returns `None` if there is not enough remaining bytes.
    fn try_get_i16_le(&mut self) -> (r: Option<i16>)
        ensures
            r is Some == (2 <= old(self).buf_view().len()),
            r matches Some(v) ==> v as int == to_signed(le_value(old(self).buf_view().take(2)), 2),
            r is Some ==> final(self).buf_view() == old(self).buf_view().skip(2),
            r is None ==> final(self).buf_view() == old(self).buf_view(),
    {
        proof {
            lemma_pow256_values();
        }
        if self.remaining() < 2 {
            return None;
        }
        let mut a = [0u8; 2];
        self.copy_to_slice(&mut a);
        Some(to_i16(decode_le(a.as_slice()) as u16))
    }

    /// Get `i16` in little endian.
    ///
    /// At least 2 bytes must remain.
    fn get_i16_le(&mut self) -> (v: i16)
        requires
            2 <= old(self).buf_view().len(),
        ensures
            v as int == to_signed(le_value(old(self).buf_view().take(2)), 2),
            final(self).buf_view() == old(self).buf_view().skip(2),
    {
        match self.try_get_i16_le() {
            Some(v) => v,
            None => {
                proof {
                    assert(false);
                }
                0
            }
        }
    }

    /// Get `i16` in native endian.
    ///
    /// Returns `None` if there is not enough remaining bytes.
    fn try_get_i16_ne(&mut self) -> (r: Option<i16>)
        ensures
            r is Some == (2 <= old(self).buf_view().len()),
            r matches Some(v) ==> v as int == to_signed(ne_value(old(self).buf_view().take(2)), 2),
            r is Some ==> final(self).buf_view() == old(self).buf_view().skip(2),
            r is None ==> final(self).buf_view() == old(self).buf_view(),
    {
        proof {
            lemma_pow256_values();
        }
        if self.remaining() < 2 {
            return None;
        }
        let mut a = [0u8; 2];
        self.copy_to_slice(&mut a);
        Some(to_i16(decode_ne(a.as_slice()) as u16))
    }

    /// Get `i16` in native endian.
    ///
    /// At least 2 bytes must remain.
    fn get_i16_ne(&mut self) -> (v: i16)
        requires
            2 <= old(self).buf_view().len(),
        ensures
            v as int == to_signed(ne_value(old(self).buf_view().take(2)), 2),
            final(self).buf_view() == old(self).buf_view().skip(2),
    {
        match self.try_get_i16_ne() {
            Some(v) => v,
            None => {
                proof {
                    assert(false);
                }
                0
            }
        }
    }

    /// Get `u32` in big endian.
    ///
    /// Returns `None` if there is not enough remaining bytes.
    fn try_get_u32(&mut self) -> (r: Option<u32>)
        ensures
            r is Some == (4 <= old(self).buf_view().len()),
            r matches Some(v) ==> v == be_value(old(self).buf_view().take(4)),
            r is Some ==> final(self).buf_view() == old(self).buf_view().skip(4),
            r is None ==> final(self).buf_view() == old(self).buf_view(),
    {
        proof {
            lemma_pow256_values();
        }
        if self.remaining() < 4 {
            return None;
        }
        let mut a = [0u8; 4];
        self.copy_to_slice(&mut a);
        Some(decode_be(a.as_slice()) as u32)
    }

    /// Get `u32` in big endian.
    ///
    /// At least 4 bytes must remain.
    fn get_u32(&mut self) -> (v: u32)
        requires
            4 <= old(self).buf_view().len(),
        ensures
            v == be_value(old(self).buf_view().take(4)),
            final(self).buf_view() == old(self).buf_view().skip(4),
    {
        match self.try_get_u32() {
            Some(v) => v,
            None => {
                proof {
                    assert(false);
                }
                0
            }
        }
    }

    /// Get `u32` in little endian.
    ///
    /// Returns `None` if there is not enough remaining bytes.
    fn try_get_u32_le(&mut self) -> (r: Option<u32>)
        ensures
            r is Some == (4 <= old(self).buf_view().len()),
            r matches Some(v) ==> v == le_value(old(self).buf_view().take(4)),
            r is Some ==> final(self).buf_view() == old(self).buf_view().skip(4),
            r is None ==> final(self).buf_view() == old(self).buf_view(),
    {
        proof {
            lemma_pow256_values();
        }
        if self.remaining() < 4 {
            return None;
        }
        let mut a = [0u8; 4];
        self.copy_to_slice(&mut a);
        Some(decode_le(a.as_slice()) as u32)
    }

    /// Get `u32` in little endian.
    ///
    /// At least 4 bytes must remain.
    fn get_u32_le(&mut self) -> (v: u32)
        requires
            4 <= old(self).buf_view().len(),
        ensures
            v == le_value(old(self).buf_view().take(4)),
            final(self).buf_view() == old(self).buf_view().skip(4),
    {
        match self.try_get_u32_le() {
            Some(v) => v,
            None => {
                proof {
                    assert(false);
                }
                0
            }
        }
    }

    /// Get `u32` in native endian.
    ///
    /// Returns `None` if there is not enough remaining bytes.
    fn try_get_u32_ne(&mut self) -> (r: Option<u32>)
        ensures
            r is Some == (4 <= old(self).buf_view().len()),
            r matches Some(v) ==> v == ne_value(old(self).buf_view().take(4)),
            r is Some ==> final(self).buf_view() == old(self).buf_view().skip(4),
            r is None ==> final(self).buf_view() == old(self).buf_view(),
    {
        proof {
            lemma_pow256_values();
        }
        if self.remaining() < 4 {
            return None;
        }
        let mut a = [0u8; 4];
        self.copy_to_slice(&mut a);
        Some(decode_ne(a.as_slice()) as u32)
    }

    /// Get `u32` in native endian.
    ///
    /// At least 4 bytes must remain.
    fn get_u32_ne(&mut self) -> (v: u32)
        requires
            4 <= old(self).buf_view().len(),
        ensures
            v == ne_value(old(self).buf_view().take(4)),
            final(self).buf_view() == old(self).buf_view().skip(4),
    {
        match self.try_get_u32_ne() {
            Some(v) => v,
            None => {
                proof {
                    assert(false);
                }
                0
            }
        }
    }

    /// Get `i32` in big endian.
    ///
    /// Returns `None` if there is not enough remaining bytes.
    fn try_get_i32(&mut self) -> (r: Option<i32>)
        ensures
            r is Some == (4 <= old(self).buf_view().len()),
            r matches Some(v) ==> v as int == to_signed(be_value(old(self).buf_view().take(4)), 4),
            r is Some ==> final(self).buf_view() == old(self).buf_view().skip(4),
            r is None ==> final(self).buf_view() == old(self).buf_view(),
    {
        proof {
            lemma_pow256_values();
        }
        if self.remaining() < 4 {
            return None;
        }
        let mut a = [0u8; 4];
        self.copy_to_slice(&mut a);
        Some(to_i32(decode_be(a.as_slice()) as u32))
    }

    /// Get `i32` in big endian.
    ///
    /// At least 4 bytes must remain.
    fn get_i32(&mut self) -> (v: i32)
        requires
            4 <= old(self).buf_view().len(),
        ensures
            v as int == to_signed(be_value(old(self).buf_view().take(4)), 4),
            final(self).buf_view() == old(self).buf_view().skip(4),
    {
        match self.try_get_i32() {
            Some(v) => v,
            None => {
                proof {
                    assert(false);
                }
                0
            }
        }
    }

    /// Get `i32` in little endian.
    ///
    /// Returns `None` if there is not enough remaining bytes.
    fn try_get_i32_le(&mut self) -> (r: Option<i32>)
        ensures
            r is Some == (4 <= old(self).buf_view().len()),
            r matches Some(v) ==> v as int == to_signed(le_value(old(self).buf_view().take(4)), 4),
            r is Some ==> final(self).buf_view() == old(self).buf_view().skip(4),
            r is None ==> final(self).buf_view() == old(self).buf_view(),
    {
        proof {
            lemma_pow256_values();
        }
        if self.remaining() < 4 {
            return None;
        }
        let mut a = [0u8; 4];
        self.copy_to_slice(&mut a);
        Some(to_i32(decode_le(a.as_slice()) as u32))
    }

    /// Get `i32` in little endian.
    ///
    /// At least 4 bytes must remain.
    fn get_i32_le(&mut self) -> (v: i32)
        requires
            4 <= old(self).buf_view().len(),
        ensures
            v as int == to_signed(le_value(old(self).buf_view().take(4)), 4),
            final(self).buf_view() == old(self).buf_view().skip(4),
    {
        match self.try_get_i32_le() {
            Some(v) => v,
            None => {
                proof {
                    assert(false);
                }
                0
            }
        }
    }

    /// Get `i32` in native endian.
    ///
    /// Returns `None` if there is not enough remaining bytes.
    fn try_get_i32_ne(&mut self) -> (r: Option<i32>)
        ensures
            r is Some == (4 <= old(self).buf_view().len()),
            r matches Some(v) ==> v as int == to_signed(ne_value(old(self).buf_view().take(4)), 4),
            r is Some ==> final(self).buf_view() == old(self).buf_view().skip(4),
            r is None ==> final(self).buf_view() == old(self).buf_view(),
    {
        proof {
            lemma_pow256_values();
        }
        if self.remaining() < 4 {
            return None;
        }
        let mut a = [0u8; 4];
        self.copy_to_slice(&mut a);
        Some(to_i32(decode_ne(a.as_slice()) as u32))
    }

    /// Get `i32` in native endian.
    ///
    /// At least 4 bytes must remain.
    fn get_i32_ne(&mut self) -> (v: i32)
        requires
            4 <= old(self).buf_view().len(),
        ensures
            v as int == to_signed(ne_value(old(self).buf_view().take(4)), 4),
            final(self).buf_view() == old(self).buf_view().skip(4),
    {
        match self.try_get_i32_ne() {
            Some(v) => v,
            None => {
                proof {
                    assert(false);
                }
                0
            }
        }
    }

    /// Get `u64` in big endian.
    ///
    /// Returns `None` if there is not enough remaining bytes.
    fn try_get_u64(&mut self) -> (r: Option<u64>)
        ensures
            r is Some == (8 <= old(self).buf_view().len()),
            r matches Some(v) ==> v == be_value(old(self).buf_view().take(8)),
            r is Some ==> final(self).buf_view() == old(self).buf_view().skip(8),
            r is None ==> final(self).buf_view() == old(self).buf_view(),
    {
        proof {
            lemma_pow256_values();
        }
        if self.remaining() < 8 {
            return None;
        }
        let mut a = [0u8; 8];
        self.copy_to_slice(&mut a);
        Some(decode_be(a.as_slice()) as u64)
    }

    /// Get `u64` in big endian.
    ///
    /// At least 8 bytes must remain.
    fn get_u64(&mut self) -> (v: u64)
        requires
            8 <= old(self).buf_view().len(),
        ensures
            v == be_value(old(self).buf_view().take(8)),
            final(self).buf_view() == old(self).buf_view().skip(8),
    {
        match self.try_get_u64() {
            Some(v) => v,
            None => {
                proof {
                    assert(false);
                }
                0
            }
        }
    }

    /// Get `u64` in little endian.
    ///
    /// Returns `None` if there is not enough remaining bytes.
    fn try_get_u64_le(&mut self) -> (r: Option<u64>)
        ensures
            r is Some == (8 <= old(self).buf_view().len()),
            r matches Some(v) ==> v == le_value(old(self).buf_view().take(8)),
            r is Some ==> final(self).buf_view() == old(self).buf_view().skip(8),
            r is None ==> final(self).buf_view() == old(self).buf_view(),
    {
        proof {
            lemma_pow256_values();
        }
        if self.remaining() < 8 {
            return None;
        }
        let mut a = [0u8; 8];
        self.copy_to_slice(&mut a);
        Some(decode_le(a.as_slice()) as u64)
    }

    /// Get `u64` in little endian.
    ///
    /// At least 8 bytes must remain.
    fn get_u64_le(&mut self) -> (v: u64)
        requires
            8 <= old(self).buf_view().len(),
        ensures
            v == le_value(old(self).buf_view().take(8)),
            final(self).buf_view() == old(self).buf_view().skip(8),
    {
        match self.try_get_u64_le() {
            Some(v) => v,
            None => {
                proof {
                    assert(false);
                }
                0
            }
        }
    }

    /// Get `u64` in native endian.
    ///
    /// Returns `None` if there is not enough remaining bytes.
    fn try_get_u64_ne(&mut self) -> (r: Option<u64>)
        ensures
            r is Some == (8 <= old(self).buf_view().len()),
            r matches Some(v) ==> v == ne_value(old(self).buf_view().take(8)),
            r is Some ==> final(self).buf_view() == old(self).buf_view().skip(8),
            r is None ==> final(self).buf_view() == old(self).buf_view(),
    {
        proof {
            lemma_pow256_values();
        }
        if self.remaining() < 8 {
            return None;
        }
        let mut a = [0u8; 8];
        self.copy_to_slice(&mut a);
        Some(decode_ne(a.as_slice()) as u64)
    }

    /// Get `u64` in native endian.
    ///
    /// At least 8 bytes must remain.
    fn get_u64_ne(&mut self) -> (v: u64)
        requires
            8 <= old(self).buf_view().len(),
        ensures
            v == ne_value(old(self).buf_view().take(8)),
            final(self).buf_view() == old(self).buf_view().skip(8),
    {
        match self.try_get_u64_ne() {
            Some(v) => v,
            None => {
                proof {
                    assert(false);
                }
                0
            }
        }
    }

    /// Get `i64` in big endian.
    ///
    /// Returns `None` if there is not enough remaining bytes.
    fn try_get_i64(&mut self) -> (r: Option<i64>)
        ensures
            r is Some == (8 <= old(self).buf_view().len()),
            r matches Some(v) ==> v as int == to_signed(be_value(old(self).buf_view().take(8)), 8),
            r is Some ==> final(self).buf_view() == old(self).buf_view().skip(8),
            r is None ==> final(self).buf_view() == old(self).buf_view(),
    {
        proof {
            lemma_pow256_values();
        }
        if self.remaining() < 8 {
            return None;
        }
        let mut a = [0u8; 8];
        self.copy_to_slice(&mut a);
        Some(to_i64(decode_be(a.as_slice()) as u64))
    }

    /// Get `i64` in big endian.
    ///
    /// At least 8 bytes must remain.
    fn get_i64(&mut self) -> (v: i64)
        requires
            8 <= old(self).buf_view().len(),
        ensures
            v as int == to_signed(be_value(old(self).buf_view().take(8)), 8),
            final(self).buf_view() == old(self).buf_view().skip(8),
    {
        match self.try_get_i64() {
            Some(v) => v,
            None => {
                proof {
                    assert(false);
                }
                0
            }
        }
    }

    /// Get `i64` in little endian.
    ///
    /// Returns `None` if there is not enough remaining bytes.
    fn try_get_i64_le(&mut self) -> (r: Option<i64>)
        ensures
            r is Some == (8 <= old(self).buf_view().len()),
            r matches Some(v) ==> v as int == to_signed(le_value(old(self).buf_view().take(8)), 8),
            r is Some ==> final(self).buf_view() == old(self).buf_view().skip(8),
            r is None ==> final(self).buf_view() == old(self).buf_view(),
    {
        proof {
            lemma_pow256_values();
        }
        if self.remaining() < 8 {
            return None;
        }
        let mut a = [0u8; 8];
        self.copy_to_slice(&mut a);
        Some(to_i64(decode_le(a.as_slice()) as u64))
    }

    /// Get `i64` in little endian.
    ///
    /// At least 8 bytes must remain.
    fn get_i64_le(&mut self) -> (v: i64)
        requires
            8 <= old(self).buf_view().len(),
        ensures
            v as int == to_signed(le_value(old(self).buf_view().take(8)), 8),
            final(self).buf_view() == old(self).buf_view().skip(8),
    {
        match self.try_get_i64_le() {
            Some(v) => v,
            None => {
                proof {
                    assert(false);
                }
                0
            }
        }
    }

    /// Get `i64` in native endian.
    ///
    /// Returns `None` if there is not enough remaining bytes.
    fn try_get_i64_ne(&mut self) -> (r: Option<i64>)
        ensures
            r is Some == (8 <= old(self).buf_view().len()),
            r matches Some(v) ==> v as int == to_signed(ne_value(old(self).buf_view().take(8)), 8),
            r is Some ==> final(self).buf_view() == old(self).buf_view().skip(8),
            r is None ==> final(self).buf_view() == old(self).buf_view(),
    {
        proof {
            lemma_pow256_values();
        }
        if self.remaining() < 8 {
            return None;
        }
        let mut a = [0u8; 8];
        self.copy_to_slice(&mut a);
        Some(to_i64(decode_ne(a.as_slice()) as u64))
    }

    /// Get `i64` in native endian.
    ///
    /// At least 8 bytes must remain.
    fn get_i64_ne(&mut self) -> (v: i64)
        requires
            8 <= old(self).buf_view().len(),
        ensures
            v as int == to_signed(ne_value(old(self).buf_view().take(8)), 8),
            final(self).buf_view() == old(self).buf_view().skip(8),
    {
        match self.try_get_i64_ne() {
            Some(v) => v,
            None => {
                proof {
                    assert(false);
                }
                0
            }
        }
    }

    /// Get `u128` in big endian.
    ///
    /// Returns `None` if there is not enough remaining bytes.
    fn try_get_u128(&mut self) -> (r: Option<u128>)
        ensures
            r is Some == (16 <= old(self).buf_view().len()),
            r matches Some(v) ==> v == be_value(old(self).buf_view().take(16)),
            r is Some ==> final(self).buf_view() == old(self).buf_view().skip(16),
            r is None ==> final(self).buf_view() == old(self).buf_view(),
    {
        proof {
            lemma_pow256_values();
        }
        if self.remaining() < 16 {
            return None;
        }
        let mut a = [0u8; 16];
        self.copy_to_slice(&mut a);
        Some(decode_be(a.as_slice()) as u128)
    }

    /// Get `u128` in big endian.
    ///
    /// At least 16 bytes must remain.
    fn get_u128(&mut self) -> (v: u128)
        requires
            16 <= old(self).buf_view().len(),
        ensures
            v == be_value(old(self).buf_view().take(16)),
            final(self).buf_view() == old(self).buf_view().skip(16),
    {
        match self.try_get_u128() {
            Some(v) => v,
            None => {
                proof {
                    assert(false);
                }
                0
            }
        }
    }

    /// Get `u128` in little endian.
    ///
    /// Returns `None` if there is not enough remaining bytes.
    fn try_get_u128_le(&mut self) -> (r: Option<u128>)
        ensures
            r is Some == (16 <= old(self).buf_view().len()),
            r matches Some(v) ==> v == le_value(old(self).buf_view().take(16)),
            r is Some ==> final(self).buf_view() == old(self).buf_view().skip(16),
            r is None ==> final(self).buf_view() == old(self).buf_view(),
    {
        proof {
            lemma_pow256_values();
        }
        if self.remaining() < 16 {
            return None;
        }
        let mut a = [0u8; 16];
        self.copy_to_slice(&mut a);
        Some(decode_le(a.as_slice()) as u128)
    }

    /// Get `u128` in little endian.
    ///
    /// At least 16 bytes must remain.
    fn get_u128_le(&mut self) -> (v: u128)
        requires
            16 <= old(self).buf_view().len(),
        ensures
            v == le_value(old(self).buf_view().take(16)),
            final(self).buf_view() == old(self).buf_view().skip(16),
    {
        match self.try_get_u128_le() {
            Some(v) => v,
            None => {
                proof {
                    assert(false);
                }
                0
            }
        }
    }

    /// Get `u128` in native endian.
    ///
    /// Returns `None` if there is not enough remaining bytes.
    fn try_get_u128_ne(&mut self) -> (r: Option<u128>)
        ensures
            r is Some == (16 <= old(self).buf_view().len()),
            r matches Some(v) ==> v == ne_value(old(self).buf_view().take(16)),
            r is Some ==> final(self).buf_view() == old(self).buf_view().skip(16),
            r is None ==> final(self).buf_view() == old(self).buf_view(),
    {
        proof {
            lemma_pow256_values();
        }
        if self.remaining() < 16 {
            return None;
        }
        let mut a = [0u8; 16];
        self.copy_to_slice(&mut a);
        Some(decode_ne(a.as_slice()) as u128)
    }

    /// Get `u128` in native endian.
    ///
    /// At least 16 bytes must remain.
    fn get_u128_ne(&mut self) -> (v: u128)
        requires
            16 <= old(self).buf_view().len(),
        ensures
            v == ne_value(old(self).buf_view().take(16)),
            final(self).buf_view() == old(self).buf_view().skip(16),
    {
        match self.try_get_u128_ne() {
            Some(v) => v,
            None => {
                proof {
                    assert(false);
                }
                0
            }
        }
    }

    /// Get `i128` in big endian.
    ///
    /// Returns `None` if there is not enough remaining bytes.
    fn try_get_i128(&mut self) -> (r: Option<i128>)
        ensures
            r is Some == (16 <= old(self).buf_view().len()),
            r matches Some(v) ==> v as int == to_signed(be_value(old(self).buf_view().take(16)), 16),
            r is Some ==> final(self).buf_view() == old(self).buf_view().skip(16),
            r is None ==> final(self).buf_view() == old(self).buf_view(),
    {
        proof {
            lemma_pow256_values();
        }
        if self.remaining() < 16 {
            return None;
        }
        let mut a = [0u8; 16];
        self.copy_to_slice(&mut a);
        Some(to_i128(decode_be(a.as_slice()) as u128))
    }

    /// Get `i128` in big endian.
    ///
    /// At least 16 bytes must remain.
    fn get_i128(&mut self) -> (v: i128)
        requires
            16 <= old(self).buf_view().len(),
        ensures
            v as int == to_signed(be_value(old(self).buf_view().take(16)), 16),
            final(self).buf_view() == old(self).buf_view().skip(16),
    {
        match self.try_get_i128() {
            Some(v) => v,
            None => {
                proof {
                    assert(false);
                }
                0
            }
        }
    }

    /// Get `i128` in little endian.
    ///
    /// Returns `None` if there is not enough remaining bytes.
    fn try_get_i128_le(&mut self) -> (r: Option<i128>)
        ensures
            r is Some == (16 <= old(self).buf_view().len()),
            r matches Some(v) ==> v as int == to_signed(le_value(old(self).buf_view().take(16)), 16),
            r is Some ==> final(self).buf_view() == old(self).buf_view().skip(16),
            r is None ==> final(self).buf_view() == old(self).buf_view(),
    {
        proof {
            lemma_pow256_values();
        }
        if self.remaining() < 16 {
            return None;
        }
        let mut a = [0u8; 16];
        self.copy_to_slice(&mut a);
        Some(to_i128(decode_le(a.as_slice()) as u128))
    }

    /// Get `i128` in little endian.
    ///
    /// At least 16 bytes must remain.
    fn get_i128_le(&mut self) -> (v: i128)
        requires
            16 <= old(self).buf_view().len(),
        ensures
            v as int == to_signed(le_value(old(self).buf_view().take(16)), 16),
            final(self).buf_view() == old(self).buf_view().skip(16),
    {
        match self.try_get_i128_le() {
            Some(v) => v,
            None => {
                proof {
                    assert(false);
                }
                0
            }
        }
    }

    /// Get `i128` in native endian.
    ///
    /// Returns `None` if there is not enough remaining bytes.
    fn try_get_i128_ne(&mut self) -> (r: Option<i128>)
        ensures
            r is Some == (16 <= old(self).buf_view().len()),
            r matches Some(v) ==> v as int == to_signed(ne_value(old(self).buf_view().take(16)), 16),
            r is Some ==> final(self).buf_view() == old(self).buf_view().skip(16),
            r is None ==> final(self).buf_view() == old(self).buf_view(),
    {
        proof {
            lemma_pow256_values();
        }
        if self.remaining() < 16 {
            return None;
        }
        let mut a = [0u8; 16];
        self.copy_to_slice(&mut a);
        Some(to_i128(decode_ne(a.as_slice()) as u128))
    }

    /// Get `i128` in native endian.
    ///
    /// At least 16 bytes must remain.
    fn get_i128_ne(&mut self) -> (v: i128)
        requires
            16 <= old(self).buf_view().len(),
        ensures
            v as int == to_signed(ne_value(old(self).buf_view().take(16)), 16),
            final(self).buf_view() == old(self).buf_view().skip(16),
    {
        match self.try_get_i128_ne() {
            Some(v) => v,
            None => {
                proof {
                    assert(false);
                }
                0
            }
        }
    }

}

// ===== impl Buf =====

impl Buf for &[u8] {
    open spec fn buf_view(&self) -> Seq<u8> {
        (**self)@
    }

    fn remaining(&self) -> (n: usize) {
        self.len()
    }

    fn chunk(&self) -> (c: &[u8]) {
        assert((**self)@ =~= (**self)@.take((**self)@.len() as int));
        *self
    }

    fn advance(&mut self, cnt: usize) {
        *self = &self[cnt..self.len()];
        assert((**self)@ =~= (**old(self))@.skip(cnt as int));
    }

    fn copy_to_bytes(&mut self, len: usize) -> (b: Bytes) {
        let (a, b) = self.split_at(len);
        *self = b;
        Bytes::copy_from_slice(a)
    }
}

impl Buf for Bytes {
    open spec fn buf_view(&self) -> Seq<u8> {
        self@
    }

    fn remaining(&self) -> (n: usize) {
        self.len()
    }

    fn chunk(&self) -> (c: &[u8]) {
        let c = self.as_slice();
        assert(c@ =~= self@.take(c@.len() as int));
        c
    }

    fn advance(&mut self, cnt: usize) {
        Bytes::advance(self, cnt);
    }

    fn copy_to_bytes(&mut self, len: usize) -> (b: Bytes) {
        self.split_to(len)
    }
}

impl Buf for BytesMut {
    open spec fn buf_view(&self) -> Seq<u8> {
        self@
    }

    fn remaining(&self) -> (n: usize) {
        self.len()
    }

    fn chunk(&self) -> (c: &[u8]) {
        let c = self.as_slice();
        assert(c@ =~= self@.take(c@.len() as int));
        c
    }

    fn advance(&mut self, cnt: usize) {
        BytesMut::advance(self, cnt);
    }

    fn copy_to_bytes(&mut self, len: usize) -> (b: Bytes) {
        self.split_to(len).freeze()
    }
}

} // verus!
