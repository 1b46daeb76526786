//! A cheaply cloneable and sliceable str.
use std::str::Utf8Error;
use vstd::prelude::*;
use vstd::string::StringSliceAdditionalSpecFns;
use vstd::utf8::valid_utf8;

use super::range::same_bytes;
use super::Bytes;

verus! {

/// `std::str::Utf8Error`, the error of a failed UTF-8 conversion.
#[verifier::external_type_specification]
#[verifier::external_body]
pub struct ExUtf8Error(Utf8Error);

/// The error that `std::str::from_utf8` gives for bytes that are not valid UTF-8: where the
/// valid prefix ends and how long the invalid sequence is, as the standard library computes them
/// from the bytes alone.
pub uninterp spec fn from_utf8_error(bytes: Seq<u8>) -> Utf8Error;

/// Converts bytes to a string slice (`std::str::from_utf8`).
///
/// Succeeds exactly when the bytes are valid UTF-8, and the string then has the given bytes;
/// otherwise the error is the one that the standard library computes from the bytes.
#[verifier::external_body]
fn str_from_utf8(bytes: &[u8]) -> (r: Result<&str, Utf8Error>)
    ensures
        r is Ok == valid_utf8(bytes@),
        r matches Ok(s) ==> s.spec_bytes() == bytes@,
        r matches Err(e) ==> e == from_utf8_error(bytes@),
{
    std::str::from_utf8(bytes)
}

/// A cheaply cloneable and sliceable str.
///
/// An immutable [`String`] with storage backed by [`Bytes`].
#[derive(Debug)]
pub struct ByteStr {
    bytes: Bytes,
}

impl View for ByteStr {
    type V = Seq<u8>;

    closed spec fn view(&self) -> Seq<u8> {
        self.bytes@
    }
}

impl ByteStr {
    /// The invariant of a `ByteStr`: its bytes are valid UTF-8.
    #[verifier::type_invariant]
    closed spec fn inv(&self) -> bool {
        valid_utf8(self.bytes@)
    }

    /// `true` when the string is valid UTF-8, which every `ByteStr` is.
    pub closed spec fn is_utf8(&self) -> bool {
        valid_utf8(self.bytes@)
    }

    /// `true` when the bytes are static or empty, thus never the unique handle of an allocation.
    pub closed spec fn is_static(&self) -> bool {
        self.bytes.is_static()
    }

    /// Creates new empty [`ByteStr`].
    ///
    /// This function does not allocate.
    pub fn new() -> (s: ByteStr)
        ensures
            s@ == Seq::<u8>::empty(),
            s.is_static(),
    {
        let bytes = Bytes::new();
        assert(valid_utf8(bytes@));
        ByteStr { bytes }
    }

    /// Converts a [`Bytes`] to a [`ByteStr`].
    ///
    /// # Errors
    ///
    /// Returns `Err` if the slice is not UTF-8 with a description as to why the provided slice is
    /// not UTF-8.
    pub fn from_utf8(bytes: Bytes) -> (r: Result<Self, FromUtf8Error>)
        ensures
            r is Ok == valid_utf8(bytes@),
            r matches Ok(s) ==> s@ == bytes@ && s.is_static() == bytes.is_static(),
            r matches Err(e) ==> e@ == bytes@ && e.error_view() == from_utf8_error(bytes@),
    {
        match str_from_utf8(bytes.as_slice()) {
            Ok(_) => Ok(ByteStr { bytes }),
            Err(error) => Err(FromUtf8Error { bytes, error }),
        }
    }

    /// Creates [`ByteStr`] instance from str slice, by copying it.
    pub fn copy_from_str(string: &str) -> (s: Self)
        ensures
            s@ == string.spec_bytes(),
    {
        let slice = string.as_bytes();
        proof {
            vstd::utf8::encode_utf8_valid_utf8(string@);
        }
        ByteStr { bytes: Bytes::copy_from_slice(slice) }
    }

    /// Creates a new [`ByteStr`] from a static str.
    ///
    /// The returned [`ByteStr`] will point directly to the static str. There is no allocating or
    /// copying.
    pub fn from_static(string: &'static str) -> (s: Self)
        ensures
            s@ == string.spec_bytes(),
            s.is_static(),
    {
        let slice: &'static [u8] = string.as_bytes();
        proof {
            vstd::utf8::encode_utf8_valid_utf8(string@);
        }
        ByteStr { bytes: Bytes::from_static(slice) }
    }

    /// Clears the string, removing all data.
    pub fn clear(&mut self)
        ensures
            final(self)@ == Seq::<u8>::empty(),
            final(self).is_static(),
    {
        let mut bytes = Bytes::new();
        assert(valid_utf8(bytes@));
        std::mem::swap(&mut self.bytes, &mut bytes);
    }

    /// Returns true if this is the only reference to the data.
    ///
    /// Always returns false if the data is backed by a static slice.
    pub fn is_unique(&self) -> (b: bool)
        ensures
            self.is_static() ==> !b,
    {
        self.bytes.is_unique()
    }

    /// Extracts a string slice containing the entire `ByteStr`.
    pub fn as_str(&self) -> (s: &str)
        ensures
            s.spec_bytes() == self@,
    {
        proof {
            use_type_invariant(self);
        }
        match str_from_utf8(self.bytes.as_slice()) {
            Ok(s) => s,
            Err(_) => {
                assert(false);
                ""
            },
        }
    }

    /// Returns the `ByteStr` of the part of `bytes` that `subset` views, sharing the allocation
    /// of `bytes`.
    ///
    /// Returns `None` where `subset` is not empty and does not lie within `bytes`.
    pub fn from_slice_of(subset: &str, bytes: &Bytes) -> (r: Option<Self>)
        ensures
            subset.spec_bytes().len() == 0 ==> r is Some,
            r matches Some(s) ==> s@ == subset.spec_bytes(),
    {
        let sub = subset.as_bytes();
        proof {
            vstd::utf8::encode_utf8_valid_utf8(subset@);
        }
        match bytes.slice_ref(sub) {
            Some(b) => if same_bytes(b.as_slice(), sub) {
                Some(ByteStr { bytes: b })
            } else {
                None
            },
            None => None,
        }
    }

    /// Returns the shared subset of the string that `subset` views.
    ///
    /// A `subset` that lies within the string gives a `ByteStr` of exactly its text, and an empty
    /// `subset` gives an empty one. A non-empty `subset` that does not lie within the string gives
    /// `None` rather than a panic. Whether `subset` lies within the string depends on where both
    /// are in memory, so this contract only says that a result has the text of `subset`.
    pub fn slice_ref(&self, subset: &str) -> (r: Option<Self>)
        ensures
            subset.spec_bytes().len() == 0 ==> r is Some,
            r matches Some(s) ==> s@ == subset.spec_bytes(),
    {
        Self::from_slice_of(subset, &self.bytes)
    }

    /// Returns the bytes of the string, which are valid UTF-8.
    pub fn as_bytes(&self) -> (s: &[u8])
        ensures
            s@ == self@,
            valid_utf8(s@),
    {
        proof {
            use_type_invariant(self);
        }
        self.bytes.as_slice()
    }

    /// Returns the number of bytes of the string.
    pub fn len(&self) -> (n: usize)
        ensures
            n == self@.len(),
    {
        self.bytes.len()
    }

    /// Converts a [`ByteStr`] into a [`String`] with the same bytes.
    pub fn into_string(self) -> (r: String)
        ensures
            vstd::utf8::encode_utf8(r@) == self@,
    {
        let s = self.as_str();
        s.to_owned()
    }

    /// Converts a [`ByteStr`] into a [`Bytes`], whose bytes are valid UTF-8.
    pub fn into_bytes(self) -> (b: Bytes)
        ensures
            b@ == self@,
            valid_utf8(b@),
            b.is_static() == self.is_static(),
    {
        proof {
            use_type_invariant(&self);
        }
        self.bytes
    }
}

// ===== Error =====

/// A possible error value when converting a `String` from a UTF-8 byte vector.
#[derive(Debug)]
pub struct FromUtf8Error {
    bytes: Bytes,
    error: Utf8Error,
}

impl View for FromUtf8Error {
    type V = Seq<u8>;

    closed spec fn view(&self) -> Seq<u8> {
        self.bytes@
    }
}

impl FromUtf8Error {
    /// The error that the failed conversion gave.
    pub closed spec fn error_view(&self) -> Utf8Error {
        self.error
    }

    /// Fetch a `Utf8Error` to get more details about the conversion failure.
    pub fn utf8_error(&self) -> (e: &Utf8Error)
        ensures
            *e == self.error_view(),
    {
        &self.error
    }

    /// Returns a slice of [`u8`]s bytes that were attempted to convert to a `ByteStr`.
    pub fn as_bytes(&self) -> (s: &[u8])
        ensures
            s@ == self@,
    {
        self.bytes.as_slice()
    }

    /// Returns the bytes that were attempted to convert to a `ByteStr`.
    pub fn into_bytes(self) -> (b: Bytes)
        ensures
            b@ == self@,
    {
        self.bytes
    }
}

impl Clone for ByteStr {
    /// Returns a `ByteStr` with the same string, sharing the same allocation.
    fn clone(&self) -> (s: Self)
        ensures
            s@ == self@,
    {
        proof {
            use_type_invariant(self);
        }
        ByteStr { bytes: self.bytes.clone() }
    }
}

} // verus!
