//! Conversions between [`Bytes`], [`BytesMut`] and byte vectors.
use vstd::prelude::*;
use vstd::std_specs::convert::FromSpecImpl;

use super::{ByteStr, Bytes, BytesMut};

verus! {

impl From<Vec<u8>> for Bytes {
    /// Creates `Bytes` that own the bytes of the vector, reusing its allocation.
    fn from(vec: Vec<u8>) -> (b: Self)
        ensures
            b@ == vec@,
    {
        Bytes::from_vec(vec)
    }
}

impl FromSpecImpl<Vec<u8>> for Bytes {
    open spec fn obeys_from_spec() -> bool {
        false
    }

    open spec fn from_spec(v: Vec<u8>) -> Self {
        arbitrary()
    }
}

impl From<BytesMut> for Bytes {
    /// Converts a [`BytesMut`] into [`Bytes`], reusing its allocation.
    fn from(bytes: BytesMut) -> (b: Self)
        ensures
            b@ == bytes@,
    {
        bytes.freeze()
    }
}

impl FromSpecImpl<BytesMut> for Bytes {
    open spec fn obeys_from_spec() -> bool {
        false
    }

    open spec fn from_spec(v: BytesMut) -> Self {
        arbitrary()
    }
}

impl From<Vec<u8>> for BytesMut {
    /// Creates a `BytesMut` that owns the bytes and the capacity of the vector.
    fn from(vec: Vec<u8>) -> (b: Self)
        ensures
            b@ == vec@,
    {
        BytesMut::from_vec(vec)
    }
}

impl FromSpecImpl<Vec<u8>> for BytesMut {
    open spec fn obeys_from_spec() -> bool {
        false
    }

    open spec fn from_spec(v: Vec<u8>) -> Self {
        arbitrary()
    }
}

impl From<Bytes> for BytesMut {
    /// Converts a [`Bytes`] into a [`BytesMut`].
    ///
    /// If [`Bytes::is_unique`] returns `true`, the buffer is consumed and returned.
    ///
    /// Otherwise, the buffer is copied to new allocation.
    fn from(bytes: Bytes) -> (b: Self)
        ensures
            b@ == bytes@,
    {
        bytes.into_mut()
    }
}

impl FromSpecImpl<Bytes> for BytesMut {
    open spec fn obeys_from_spec() -> bool {
        false
    }

    open spec fn from_spec(v: Bytes) -> Self {
        arbitrary()
    }
}

impl From<Bytes> for Vec<u8> {
    /// Converts a [`Bytes`] into a byte vector.
    ///
    /// If [`Bytes::is_unique`] returns `true`, the buffer is consumed and returned.
    ///
    /// Otherwise, the buffer is copied to new allocation.
    fn from(bytes: Bytes) -> (v: Self)
        ensures
            v@ == bytes@,
    {
        bytes.into_vec()
    }
}

impl FromSpecImpl<Bytes> for Vec<u8> {
    open spec fn obeys_from_spec() -> bool {
        false
    }

    open spec fn from_spec(v: Bytes) -> Self {
        arbitrary()
    }
}

impl From<BytesMut> for Vec<u8> {
    /// Converts a [`BytesMut`] into a byte vector, reusing its allocation when it is not shared.
    fn from(bytes: BytesMut) -> (v: Self)
        ensures
            v@ == bytes@,
    {
        bytes.into_vec()
    }
}

impl FromSpecImpl<BytesMut> for Vec<u8> {
    open spec fn obeys_from_spec() -> bool {
        false
    }

    open spec fn from_spec(v: BytesMut) -> Self {
        arbitrary()
    }
}

impl Default for Bytes {
    /// Creates an empty `Bytes`.
    fn default() -> (b: Self)
        ensures
            b@ == Seq::<u8>::empty(),
    {
        Bytes::new()
    }
}

impl Default for BytesMut {
    /// Creates an empty `BytesMut` that holds no allocation.
    fn default() -> (b: Self)
        ensures
            b@ == Seq::<u8>::empty(),
    {
        BytesMut::new()
    }
}

impl Clone for BytesMut {
    /// Copies the bytes to a new allocation.
    fn clone(&self) -> (b: Self)
        ensures
            b@ == self@,
    {
        BytesMut::copy_from_slice(self.as_slice())
    }
}

impl Default for ByteStr {
    /// Creates an empty `ByteStr`.
    fn default() -> (s: Self)
        ensures
            s@ == Seq::<u8>::empty(),
    {
        ByteStr::new()
    }
}

impl From<ByteStr> for Bytes {
    /// The bytes of the string.
    fn from(string: ByteStr) -> (b: Self)
        ensures
            b@ == string@,
    {
        string.into_bytes()
    }
}

impl FromSpecImpl<ByteStr> for Bytes {
    open spec fn obeys_from_spec() -> bool {
        false
    }

    open spec fn from_spec(v: ByteStr) -> Self {
        arbitrary()
    }
}

} // verus!
