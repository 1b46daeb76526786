//! Utilities for working with bytes.
//!
//! Overview:
//!
//! - [`Buf`] represent a readable in memory buffer.
//! - [`BufMut`] represent a writable in memory buffer.
//! - [`Bytes`] is a reference counted shared memory buffer.
//! - [`ByteStr`] is a `Bytes` that contains valid UTF-8.
//! - [`BytesMut`] is a splitable in memory buffer.
//! - [`Cursor`] track a position in a memory buffer.
mod buf;
mod buf_mut;
mod bytes;
mod bytes_ext;
mod bytes_mut;
mod bytestr;
mod chain;
mod endian;
mod eq;
mod convert;
mod cursor;
mod cursor_buf;
mod range;
mod shared;
mod std_slice;
mod take;

pub use buf::{saturated, Buf};
pub use buf_mut::BufMut;
pub use bytes::{lemma_split_rejoin, Bytes};
pub use bytes_ext::BytesExt;
pub use bytes_mut::{lemma_split_halves_adjacent, BytesMut};
pub use bytestr::{from_utf8_error, ByteStr, FromUtf8Error};
pub use chain::Chain;
pub use endian::{
    be_value, decode_be, decode_le, decode_ne, le_value, lemma_be_le_reverse, lemma_ne_one_order,
    ne_value, pow256, to_signed,
};
pub use cursor::Cursor;
pub use cursor_buf::CursorBuf;
pub use range::{
    offset_within, range_len, range_of, slice_of, slice_of_at, slice_of_bytes, slice_of_bytes_at,
    slice_of_bytes_mut, slice_of_bytes_mut_at, same_bytes, within,
};
pub use shared::Shared;
pub use take::{min_nat, Take};
