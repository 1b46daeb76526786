//! Reading integers from the front of contiguous bytes.
use vstd::prelude::*;

use super::endian::{
    be_value, decode_be, decode_le, decode_ne, le_value, ne_value, lemma_pow256_values, to_i128, to_i16,
    to_i32, to_i64, to_i8, to_signed,
};
use super::{Bytes, BytesMut};

verus! {

/// Reading integers from the front of contiguous bytes, advancing past them.
pub trait BytesExt {
    /// The bytes that remain to be read.
    spec fn ext_view(&self) -> Seq<u8>;

    /// Takes the first `N` bytes, or returns `None` if fewer than `N` bytes remain.
    fn next_chunk<const N: usize>(&mut self) -> (r: Option<[u8; N]>)
        ensures
            r is Some == (N <= old(self).ext_view().len()),
            r matches Some(a) ==> a@ == old(self).ext_view().take(N as int),
            r is Some ==> final(self).ext_view() == old(self).ext_view().skip(N as int),
            r is None ==> final(self).ext_view() == old(self).ext_view(),
    ;

    /// Get `u8` in big endian, or `None` if fewer than 1 bytes remain.
    fn get_u8(&mut self) -> (r: Option<u8>)
        ensures
            r is Some == (1 <= old(self).ext_view().len()),
            r matches Some(v) ==> v == be_value(old(self).ext_view().take(1)),
            r is Some ==> final(self).ext_view() == old(self).ext_view().skip(1),
            r is None ==> final(self).ext_view() == old(self).ext_view(),
    {
        proof {
            lemma_pow256_values();
        }
        match self.next_chunk::<1>() {
            Some(a) => Some(decode_be(a.as_slice()) as u8),
            None => None,
        }
    }

    /// Get `u8` in little endian, or `None` if fewer than 1 bytes remain.
    fn get_u8_le(&mut self) -> (r: Option<u8>)
        ensures
            r is Some == (1 <= old(self).ext_view().len()),
            r matches Some(v) ==> v == le_value(old(self).ext_view().take(1)),
            r is Some ==> final(self).ext_view() == old(self).ext_view().skip(1),
            r is None ==> final(self).ext_view() == old(self).ext_view(),
    {
        proof {
            lemma_pow256_values();
        }
        match self.next_chunk::<1>() {
            Some(a) => Some(decode_le(a.as_slice()) as u8),
            None => None,
        }
    }

    /// Get `u8` in native endian, or `None` if fewer than 1 bytes remain.
    fn get_u8_ne(&mut self) -> (r: Option<u8>)
        ensures
            r is Some == (1 <= old(self).ext_view().len()),
            r matches Some(v) ==> v == ne_value(old(self).ext_view().take(1)),
            r is Some ==> final(self).ext_view() == old(self).ext_view().skip(1),
            r is None ==> final(self).ext_view() == old(self).ext_view(),
    {
        proof {
            lemma_pow256_values();
        }
        match self.next_chunk::<1>() {
            Some(a) => Some(decode_ne(a.as_slice()) as u8),
            None => None,
        }
    }

    /// Get `i8` in big endian, or `None` if fewer than 1 bytes remain.
    fn get_i8(&mut self) -> (r: Option<i8>)
        ensures
            r is Some == (1 <= old(self).ext_view().len()),
            r matches Some(v) ==> v as int == to_signed(be_value(old(self).ext_view().take(1)), 1),
            r is Some ==> final(self).ext_view() == old(self).ext_view().skip(1),
            r is None ==> final(self).ext_view() == old(self).ext_view(),
    {
        proof {
            lemma_pow256_values();
        }
        match self.next_chunk::<1>() {
            Some(a) => Some(to_i8(decode_be(a.as_slice()) as u8)),
            None => None,
        }
    }

    /// Get `i8` in little endian, or `None` if fewer than 1 bytes remain.
    fn get_i8_le(&mut self) -> (r: Option<i8>)
        ensures
            r is Some == (1 <= old(self).ext_view().len()),
            r matches Some(v) ==> v as int == to_signed(le_value(old(self).ext_view().take(1)), 1),
            r is Some ==> final(self).ext_view() == old(self).ext_view().skip(1),
            r is None ==> final(self).ext_view() == old(self).ext_view(),
    {
        proof {
            lemma_pow256_values();
        }
        match self.next_chunk::<1>() {
            Some(a) => Some(to_i8(decode_le(a.as_slice()) as u8)),
            None => None,
        }
    }

    /// Get `i8` in native endian, or `None` if fewer than 1 bytes remain.
    fn get_i8_ne(&mut self) -> (r: Option<i8>)
        ensures
            r is Some == (1 <= old(self).ext_view().len()),
            r matches Some(v) ==> v as int == to_signed(ne_value(old(self).ext_view().take(1)), 1),
            r is Some ==> final(self).ext_view() == old(self).ext_view().skip(1),
            r is None ==> final(self).ext_view() == old(self).ext_view(),
    {
        proof {
            lemma_pow256_values();
        }
        match self.next_chunk::<1>() {
            Some(a) => Some(to_i8(decode_ne(a.as_slice()) as u8)),
            None => None,
        }
    }

    /// Get `u16` in big endian, or `None` if fewer than 2 bytes remain.
    fn get_u16(&mut self) -> (r: Option<u16>)
        ensures
            r is Some == (2 <= old(self).ext_view().len()),
            r matches Some(v) ==> v == be_value(old(self).ext_view().take(2)),
            r is Some ==> final(self).ext_view() == old(self).ext_view().skip(2),
            r is None ==> final(self).ext_view() == old(self).ext_view(),
    {
        proof {
            lemma_pow256_values();
        }
        match self.next_chunk::<2>() {
            Some(a) => Some(decode_be(a.as_slice()) as u16),
            None => None,
        }
    }

    /// Get `u16` in little endian, or `None` if fewer than 2 bytes remain.
    fn get_u16_le(&mut self) -> (r: Option<u16>)
        ensures
            r is Some == (2 <= old(self).ext_view().len()),
            r matches Some(v) ==> v == le_value(old(self).ext_view().take(2)),
            r is Some ==> final(self).ext_view() == old(self).ext_view().skip(2),
            r is None ==> final(self).ext_view() == old(self).ext_view(),
    {
        proof {
            lemma_pow256_values();
        }
        match self.next_chunk::<2>() {
            Some(a) => Some(decode_le(a.as_slice()) as u16),
            None => None,
        }
    }

    /// Get `u16` in native endian, or `None` if fewer than 2 bytes remain.
    fn get_u16_ne(&mut self) -> (r: Option<u16>)
        ensures
            r is Some == (2 <= old(self).ext_view().len()),
            r matches Some(v) ==> v == ne_value(old(self).ext_view().take(2)),
            r is Some ==> final(self).ext_view() == old(self).ext_view().skip(2),
            r is None ==> final(self).ext_view() == old(self).ext_view(),
    {
        proof {
            lemma_pow256_values();
        }
        match self.next_chunk::<2>() {
            Some(a) => Some(decode_ne(a.as_slice()) as u16),
            None => None,
        }
    }

    /// Get `i16` in big endian, or `None` if fewer than 2 bytes remain.
    fn get_i16(&mut self) -> (r: Option<i16>)
        ensures
            r is Some == (2 <= old(self).ext_view().len()),
            r matches Some(v) ==> v as int == to_signed(be_value(old(self).ext_view().take(2)), 2),
            r is Some ==> final(self).ext_view() == old(self).ext_view().skip(2),
            r is None ==> final(self).ext_view() == old(self).ext_view(),
    {
        proof {
            lemma_pow256_values();
        }
        match self.next_chunk::<2>() {
            Some(a) => Some(to_i16(decode_be(a.as_slice()) as u16)),
            None => None,
        }
    }

    /// Get `i16` in little endian, or `None` if fewer than 2 bytes remain.
    fn get_i16_le(&mut self) -> (r: Option<i16>)
        ensures
            r is Some == (2 <= old(self).ext_view().len()),
            r matches Some(v) ==> v as int == to_signed(le_value(old(self).ext_view().take(2)), 2),
            r is Some ==> final(self).ext_view() == old(self).ext_view().skip(2),
            r is None ==> final(self).ext_view() == old(self).ext_view(),
    {
        proof {
            lemma_pow256_values();
        }
        match self.next_chunk::<2>() {
            Some(a) => Some(to_i16(decode_le(a.as_slice()) as u16)),
            None => None,
        }
    }

    /// Get `i16` in native endian, or `None` if fewer than 2 bytes remain.
    fn get_i16_ne(&mut self) -> (r: Option<i16>)
        ensures
            r is Some == (2 <= old(self).ext_view().len()),
            r matches Some(v) ==> v as int == to_signed(ne_value(old(self).ext_view().take(2)), 2),
            r is Some ==> final(self).ext_view() == old(self).ext_view().skip(2),
            r is None ==> final(self).ext_view() == old(self).ext_view(),
    {
        proof {
            lemma_pow256_values();
        }
        match self.next_chunk::<2>() {
            Some(a) => Some(to_i16(decode_ne(a.as_slice()) as u16)),
            None => None,
        }
    }

    /// Get `u32` in big endian, or `None` if fewer than 4 bytes remain.
    fn get_u32(&mut self) -> (r: Option<u32>)
        ensures
            r is Some == (4 <= old(self).ext_view().len()),
            r matches Some(v) ==> v == be_value(old(self).ext_view().take(4)),
            r is Some ==> final(self).ext_view() == old(self).ext_view().skip(4),
            r is None ==> final(self).ext_view() == old(self).ext_view(),
    {
        proof {
            lemma_pow256_values();
        }
        match self.next_chunk::<4>() {
            Some(a) => Some(decode_be(a.as_slice()) as u32),
            None => None,
        }
    }

    /// Get `u32` in little endian, or `None` if fewer than 4 bytes remain.
    fn get_u32_le(&mut self) -> (r: Option<u32>)
        ensures
            r is Some == (4 <= old(self).ext_view().len()),
            r matches Some(v) ==> v == le_value(old(self).ext_view().take(4)),
            r is Some ==> final(self).ext_view() == old(self).ext_view().skip(4),
            r is None ==> final(self).ext_view() == old(self).ext_view(),
    {
        proof {
            lemma_pow256_values();
        }
        match self.next_chunk::<4>() {
            Some(a) => Some(decode_le(a.as_slice()) as u32),
            None => None,
        }
    }

    /// Get `u32` in native endian, or `None` if fewer than 4 bytes remain.
    fn get_u32_ne(&mut self) -> (r: Option<u32>)
        ensures
            r is Some == (4 <= old(self).ext_view().len()),
            r matches Some(v) ==> v == ne_value(old(self).ext_view().take(4)),
            r is Some ==> final(self).ext_view() == old(self).ext_view().skip(4),
            r is None ==> final(self).ext_view() == old(self).ext_view(),
    {
        proof {
            lemma_pow256_values();
        }
        match self.next_chunk::<4>() {
            Some(a) => Some(decode_ne(a.as_slice()) as u32),
            None => None,
        }
    }

    /// Get `i32` in big endian, or `None` if fewer than 4 bytes remain.
    fn get_i32(&mut self) -> (r: Option<i32>)
        ensures
            r is Some == (4 <= old(self).ext_view().len()),
            r matches Some(v) ==> v as int == to_signed(be_value(old(self).ext_view().take(4)), 4),
            r is Some ==> final(self).ext_view() == old(self).ext_view().skip(4),
            r is None ==> final(self).ext_view() == old(self).ext_view(),
    {
        proof {
            lemma_pow256_values();
        }
        match self.next_chunk::<4>() {
            Some(a) => Some(to_i32(decode_be(a.as_slice()) as u32)),
            None => None,
        }
    }

    /// Get `i32` in little endian, or `None` if fewer than 4 bytes remain.
    fn get_i32_le(&mut self) -> (r: Option<i32>)
        ensures
            r is Some == (4 <= old(self).ext_view().len()),
            r matches Some(v) ==> v as int == to_signed(le_value(old(self).ext_view().take(4)), 4),
            r is Some ==> final(self).ext_view() == old(self).ext_view().skip(4),
            r is None ==> final(self).ext_view() == old(self).ext_view(),
    {
        proof {
            lemma_pow256_values();
        }
        match self.next_chunk::<4>() {
            Some(a) => Some(to_i32(decode_le(a.as_slice()) as u32)),
            None => None,
        }
    }

    /// Get `i32` in native endian, or `None` if fewer than 4 bytes remain.
    fn get_i32_ne(&mut self) -> (r: Option<i32>)
        ensures
            r is Some == (4 <= old(self).ext_view().len()),
            r matches Some(v) ==> v as int == to_signed(ne_value(old(self).ext_view().take(4)), 4),
            r is Some ==> final(self).ext_view() == old(self).ext_view().skip(4),
            r is None ==> final(self).ext_view() == old(self).ext_view(),
    {
        proof {
            lemma_pow256_values();
        }
        match self.next_chunk::<4>() {
            Some(a) => Some(to_i32(decode_ne(a.as_slice()) as u32)),
            None => None,
        }
    }

    /// Get `u64` in big endian, or `None` if fewer than 8 bytes remain.
    fn get_u64(&mut self) -> (r: Option<u64>)
        ensures
            r is Some == (8 <= old(self).ext_view().len()),
            r matches Some(v) ==> v == be_value(old(self).ext_view().take(8)),
            r is Some ==> final(self).ext_view() == old(self).ext_view().skip(8),
            r is None ==> final(self).ext_view() == old(self).ext_view(),
    {
        proof {
            lemma_pow256_values();
        }
        match self.next_chunk::<8>() {
            Some(a) => Some(decode_be(a.as_slice()) as u64),
            None => None,
        }
    }

    /// Get `u64` in little endian, or `None` if fewer than 8 bytes remain.
    fn get_u64_le(&mut self) -> (r: Option<u64>)
        ensures
            r is Some == (8 <= old(self).ext_view().len()),
            r matches Some(v) ==> v == le_value(old(self).ext_view().take(8)),
            r is Some ==> final(self).ext_view() == old(self).ext_view().skip(8),
            r is None ==> final(self).ext_view() == old(self).ext_view(),
    {
        proof {
            lemma_pow256_values();
        }
        match self.next_chunk::<8>() {
            Some(a) => Some(decode_le(a.as_slice()) as u64),
            None => None,
        }
    }

    /// Get `u64` in native endian, or `None` if fewer than 8 bytes remain.
    fn get_u64_ne(&mut self) -> (r: Option<u64>)
        ensures
            r is Some == (8 <= old(self).ext_view().len()),
            r matches Some(v) ==> v == ne_value(old(self).ext_view().take(8)),
            r is Some ==> final(self).ext_view() == old(self).ext_view().skip(8),
            r is None ==> final(self).ext_view() == old(self).ext_view(),
    {
        proof {
            lemma_pow256_values();
        }
        match self.next_chunk::<8>() {
            Some(a) => Some(decode_ne(a.as_slice()) as u64),
            None => None,
        }
    }

    /// Get `i64` in big endian, or `None` if fewer than 8 bytes remain.
    fn get_i64(&mut self) -> (r: Option<i64>)
        ensures
            r is Some == (8 <= old(self).ext_view().len()),
            r matches Some(v) ==> v as int == to_signed(be_value(old(self).ext_view().take(8)), 8),
            r is Some ==> final(self).ext_view() == old(self).ext_view().skip(8),
            r is None ==> final(self).ext_view() == old(self).ext_view(),
    {
        proof {
            lemma_pow256_values();
        }
        match self.next_chunk::<8>() {
            Some(a) => Some(to_i64(decode_be(a.as_slice()) as u64)),
            None => None,
        }
    }

    /// Get `i64` in little endian, or `None` if fewer than 8 bytes remain.
    fn get_i64_le(&mut self) -> (r: Option<i64>)
        ensures
            r is Some == (8 <= old(self).ext_view().len()),
            r matches Some(v) ==> v as int == to_signed(le_value(old(self).ext_view().take(8)), 8),
            r is Some ==> final(self).ext_view() == old(self).ext_view().skip(8),
            r is None ==> final(self).ext_view() == old(self).ext_view(),
    {
        proof {
            lemma_pow256_values();
        }
        match self.next_chunk::<8>() {
            Some(a) => Some(to_i64(decode_le(a.as_slice()) as u64)),
            None => None,
        }
    }

    /// Get `i64` in native endian, or `None` if fewer than 8 bytes remain.
    fn get_i64_ne(&mut self) -> (r: Option<i64>)
        ensures
            r is Some == (8 <= old(self).ext_view().len()),
            r matches Some(v) ==> v as int == to_signed(ne_value(old(self).ext_view().take(8)), 8),
            r is Some ==> final(self).ext_view() == old(self).ext_view().skip(8),
            r is None ==> final(self).ext_view() == old(self).ext_view(),
    {
        proof {
            lemma_pow256_values();
        }
        match self.next_chunk::<8>() {
            Some(a) => Some(to_i64(decode_ne(a.as_slice()) as u64)),
            None => None,
        }
    }

    /// Get `u128` in big endian, or `None` if fewer than 16 bytes remain.
    fn get_u128(&mut self) -> (r: Option<u128>)
        ensures
            r is Some == (16 <= old(self).ext_view().len()),
            r matches Some(v) ==> v == be_value(old(self).ext_view().take(16)),
            r is Some ==> final(self).ext_view() == old(self).ext_view().skip(16),
            r is None ==> final(self).ext_view() == old(self).ext_view(),
    {
        proof {
            lemma_pow256_values();
        }
        match self.next_chunk::<16>() {
            Some(a) => Some(decode_be(a.as_slice()) as u128),
            None => None,
        }
    }

    /// Get `u128` in little endian, or `None` if fewer than 16 bytes remain.
    fn get_u128_le(&mut self) -> (r: Option<u128>)
        ensures
            r is Some == (16 <= old(self).ext_view().len()),
            r matches Some(v) ==> v == le_value(old(self).ext_view().take(16)),
            r is Some ==> final(self).ext_view() == old(self).ext_view().skip(16),
            r is None ==> final(self).ext_view() == old(self).ext_view(),
    {
        proof {
            lemma_pow256_values();
        }
        match self.next_chunk::<16>() {
            Some(a) => Some(decode_le(a.as_slice()) as u128),
            None => None,
        }
    }

    /// Get `u128` in native endian, or `None` if fewer than 16 bytes remain.
    fn get_u128_ne(&mut self) -> (r: Option<u128>)
        ensures
            r is Some == (16 <= old(self).ext_view().len()),
            r matches Some(v) ==> v == ne_value(old(self).ext_view().take(16)),
            r is Some ==> final(self).ext_view() == old(self).ext_view().skip(16),
            r is None ==> final(self).ext_view() == old(self).ext_view(),
    {
        proof {
            lemma_pow256_values();
        }
        match self.next_chunk::<16>() {
            Some(a) => Some(decode_ne(a.as_slice()) as u128),
            None => None,
        }
    }

    /// Get `i128` in big endian, or `None` if fewer than 16 bytes remain.
    fn get_i128(&mut self) -> (r: Option<i128>)
        ensures
            r is Some == (16 <= old(self).ext_view().len()),
            r matches Some(v) ==> v as int == to_signed(be_value(old(self).ext_view().take(16)), 16),
            r is Some ==> final(self).ext_view() == old(self).ext_view().skip(16),
            r is None ==> final(self).ext_view() == old(self).ext_view(),
    {
        proof {
            lemma_pow256_values();
        }
        match self.next_chunk::<16>() {
            Some(a) => Some(to_i128(decode_be(a.as_slice()) as u128)),
            None => None,
        }
    }

    /// Get `i128` in little endian, or `None` if fewer than 16 bytes remain.
    fn get_i128_le(&mut self) -> (r: Option<i128>)
        ensures
            r is Some == (16 <= old(self).ext_view().len()),
            r matches Some(v) ==> v as int == to_signed(le_value(old(self).ext_view().take(16)), 16),
            r is Some ==> final(self).ext_view() == old(self).ext_view().skip(16),
            r is None ==> final(self).ext_view() == old(self).ext_view(),
    {
        proof {
            lemma_pow256_values();
        }
        match self.next_chunk::<16>() {
            Some(a) => Some(to_i128(decode_le(a.as_slice()) as u128)),
            None => None,
        }
    }

    /// Get `i128` in native endian, or `None` if fewer than 16 bytes remain.
    fn get_i128_ne(&mut self) -> (r: Option<i128>)
        ensures
            r is Some == (16 <= old(self).ext_view().len()),
            r matches Some(v) ==> v as int == to_signed(ne_value(old(self).ext_view().take(16)), 16),
            r is Some ==> final(self).ext_view() == old(self).ext_view().skip(16),
            r is None ==> final(self).ext_view() == old(self).ext_view(),
    {
        proof {
            lemma_pow256_values();
        }
        match self.next_chunk::<16>() {
            Some(a) => Some(to_i128(decode_ne(a.as_slice()) as u128)),
            None => None,
        }
    }

}

impl BytesExt for &[u8] {
    open spec fn ext_view(&self) -> Seq<u8> {
        (**self)@
    }

    fn next_chunk<const N: usize>(&mut self) -> (r: Option<[u8; N]>) {
        match self.first_chunk::<N>() {
            Some(lead) => {
                let lead = *lead;
                *self = &self[N..self.len()];
                assert((**self)@ =~= (**old(self))@.skip(N as int));
                Some(lead)
            },
            None => None,
        }
    }

    fn get_u8(&mut self) -> (r: Option<u8>) {
        proof {
            lemma_pow256_values();
            reveal_with_fuel(be_value, 2);
        }
        match self.first() {
            Some(lead) => {
                let lead = *lead;
                *self = &self[1..self.len()];
                assert((**self)@ =~= (**old(self))@.skip(1));
                assert((**old(self))@.take(1).drop_last() =~= Seq::<u8>::empty());
                Some(lead)
            },
            None => None,
        }
    }
}

impl BytesExt for Bytes {
    open spec fn ext_view(&self) -> Seq<u8> {
        self@
    }

    fn next_chunk<const N: usize>(&mut self) -> (r: Option<[u8; N]>) {
        let lead = match self.as_slice().first_chunk::<N>() {
            Some(lead) => *lead,
            None => {
                return None;
            },
        };
        self.advance(N);
        Some(lead)
    }
}

impl BytesExt for BytesMut {
    open spec fn ext_view(&self) -> Seq<u8> {
        self@
    }

    fn next_chunk<const N: usize>(&mut self) -> (r: Option<[u8; N]>) {
        let lead = match self.as_slice().first_chunk::<N>() {
            Some(lead) => *lead,
            None => {
                return None;
            },
        };
        self.advance(N);
        Some(lead)
    }
}

} // verus!
