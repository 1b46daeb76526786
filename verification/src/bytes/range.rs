//! Ranges of addresses of bytes, and the subsets of buffers that they denote.
use vstd::prelude::*;

use super::{Bytes, BytesMut};

verus! {

/// The address of the first byte of `buf` (`<[u8]>::as_ptr`, as an integer).
///
/// The bytes of a slice lie at the addresses from it up to `buf.len()` further, which never
/// wrap around the address space (`std::slice::from_raw_parts` documents it). The address
/// itself is chosen by the allocator, so nothing else is stated of it.
#[verifier::external_body]
pub(crate) fn addr_of(buf: &[u8]) -> (a: usize)
    ensures
        a + buf@.len() <= usize::MAX,
{
    buf.as_ptr() as usize
}

/// The length of a range, or 0 when it is reversed.
pub open spec fn range_len(range: core::ops::Range<usize>) -> nat {
    if range.start <= range.end {
        (range.end - range.start) as nat
    } else {
        0
    }
}

/// `true` when the bytes of `range` lie within the `len` bytes from address `base`.
pub open spec fn within(range: core::ops::Range<usize>, base: usize, len: nat) -> bool {
    base <= range.start && range.start - base + range_len(range) <= len
}

/// Returns the range of addresses of the bytes of `buf`.
pub fn range_of(buf: &[u8]) -> (r: core::ops::Range<usize>)
    ensures
        r.start <= r.end,
        r.end - r.start == buf@.len(),
{
    let ptr = addr_of(buf);
    ptr..ptr + buf.len()
}

/// Returns the offset from `base` of the bytes of `range`, when they lie within the `len` bytes
/// from `base`.
pub fn offset_within(range: core::ops::Range<usize>, base: usize, len: usize) -> (r: Option<
    usize,
>)
    ensures
        r is Some == within(range, base, len as nat),
        r matches Some(off) ==> off == range.start - base,
{
    let sub_len = range.end.saturating_sub(range.start);
    if range.start < base {
        return None;
    }
    let offset = range.start - base;
    if offset > len || sub_len > len - offset {
        return None;
    }
    Some(offset)
}

/// Returns the subset of `bytes` whose addresses `range` denotes, given that the bytes of
/// `bytes` start at address `base`.
///
/// Returns `None` where `range` is not empty and not within `bytes`.
pub fn slice_of_bytes_at(range: core::ops::Range<usize>, base: usize, bytes: &Bytes) -> (r: Option<
    Bytes,
>)
    ensures
        range_len(range) == 0 ==> (r matches Some(b) && b@ == Seq::<u8>::empty()),
        range_len(range) > 0 ==> (r is Some == within(range, base, bytes@.len())),
        range_len(range) > 0 ==> (r matches Some(b) ==> b@ == bytes@.subrange(
            range.start - base,
            range.start - base + range_len(range),
        )),
{
    let sub_len = range.end.saturating_sub(range.start);
    if sub_len == 0 {
        return Some(Bytes::new());
    }
    match offset_within(range, base, bytes.len()) {
        Some(offset) => Some(bytes.slice(offset..offset + sub_len)),
        None => None,
    }
}

/// Returns the subset of `bytes` whose addresses `range` denotes.
///
/// A `range` within the addresses of `bytes` gives exactly those bytes, and an empty `range`
/// gives empty bytes. A non-empty `range` that starts before `bytes` or ends past them gives
/// `None` rather than a panic. Which bytes a range denotes depends on where `bytes` lie in
/// memory, so this contract only says that the result is a subrange of `bytes`;
/// [`slice_of_bytes_at`] states the result exactly, given that address.
pub fn slice_of_bytes(range: core::ops::Range<usize>, bytes: &Bytes) -> (r: Option<Bytes>)
    ensures
        range_len(range) == 0 ==> (r matches Some(b) && b@ == Seq::<u8>::empty()),
        r matches Some(b) ==> exists|off: int|
            0 <= off && off + range_len(range) <= bytes@.len() && b@ == #[trigger] bytes@.subrange(
                off,
                off + range_len(range),
            ),
{
    let base = addr_of(bytes.as_slice());
    let ghost g = range;
    let r = slice_of_bytes_at(range, base, bytes);
    proof {
        if r is Some {
            let off = if range_len(g) == 0 {
                0
            } else {
                g.start - base
            };
            assert(r->0@ =~= bytes@.subrange(off, off + range_len(g)));
        }
    }
    r
}

/// Splits off the subset of `bytes` whose addresses `range` denotes, given that the bytes of
/// `bytes` start at address `base`; the bytes before the subset are dropped.
///
/// Returns `None`, leaving `bytes` unchanged, where `range` is not within `bytes`.
pub fn slice_of_bytes_mut_at(range: core::ops::Range<usize>, base: usize, bytes: &mut BytesMut) -> (r:
    Option<BytesMut>)
    ensures
        r is Some == within(range, base, old(bytes)@.len()),
        r is None ==> final(bytes)@ == old(bytes)@,
        r matches Some(b) ==> b@ == old(bytes)@.subrange(
            range.start - base,
            range.start - base + range_len(range),
        ) && final(bytes)@ == old(bytes)@.skip(range.start - base + range_len(range)),
{
    let sub_len = range.end.saturating_sub(range.start);
    match offset_within(range, base, bytes.len()) {
        Some(leading_len) => {
            let ghost prev = bytes@;
            bytes.advance(leading_len);
            let b = bytes.split_to(sub_len);
            assert(b@ =~= prev.subrange(leading_len as int, leading_len + sub_len));
            assert(bytes@ =~= prev.skip(leading_len + sub_len));
            Some(b)
        },
        None => None,
    }
}

/// Splits off the subset of `bytes` whose addresses `range` denotes; the bytes before the
/// subset are dropped.
///
/// Returns `None`, leaving `bytes` unchanged, where the addresses of `range` are not within
/// `bytes`.
pub fn slice_of_bytes_mut(range: core::ops::Range<usize>, bytes: &mut BytesMut) -> (r: Option<
    BytesMut,
>)
    ensures
        r is None ==> final(bytes)@ == old(bytes)@,
        r matches Some(b) ==> exists|off: int|
            0 <= off && off + range_len(range) <= old(bytes)@.len() && b@ == #[trigger] old(
                bytes,
            )@.subrange(off, off + range_len(range)) && final(bytes)@ == old(bytes)@.skip(
                off + range_len(range),
            ),
{
    let base = addr_of(bytes.as_slice());
    slice_of_bytes_mut_at(range, base, bytes)
}

/// Returns the subset of `buf` whose addresses `range` denotes, given that the bytes of `buf`
/// start at address `base`.
///
/// Returns `None` where `range` is not empty and not within `buf`.
pub fn slice_of_at<'a>(range: core::ops::Range<usize>, base: usize, buf: &'a [u8]) -> (r: Option<
    &'a [u8],
>)
    ensures
        range_len(range) == 0 ==> (r matches Some(s) && s@ == Seq::<u8>::empty()),
        range_len(range) > 0 ==> (r is Some == within(range, base, buf@.len())),
        range_len(range) > 0 ==> (r matches Some(s) ==> s@ == buf@.subrange(
            range.start - base,
            range.start - base + range_len(range),
        )),
{
    let sub_len = range.end.saturating_sub(range.start);
    if sub_len == 0 {
        let s = &buf[0..0];
        assert(s@ =~= Seq::<u8>::empty());
        return Some(s);
    }
    match offset_within(range, base, buf.len()) {
        Some(offset) => Some(&buf[offset..offset + sub_len]),
        None => None,
    }
}

/// Returns the subset of `buf` whose addresses `range` denotes.
///
/// A `range` within the addresses of `buf` gives exactly those bytes; a non-empty `range`
/// outside them gives `None` rather than a panic. [`slice_of_at`] states the result exactly,
/// given the address of `buf`.
pub fn slice_of<'a>(range: core::ops::Range<usize>, buf: &'a [u8]) -> (r: Option<&'a [u8]>)
    ensures
        range_len(range) == 0 ==> (r matches Some(s) && s@ == Seq::<u8>::empty()),
        r matches Some(s) ==> exists|off: int|
            0 <= off && off + range_len(range) <= buf@.len() && s@ == #[trigger] buf@.subrange(
                off,
                off + range_len(range),
            ),
{
    let base = addr_of(buf);
    let ghost g = range;
    let r = slice_of_at(range, base, buf);
    proof {
        if r is Some {
            let off = if range_len(g) == 0 {
                0
            } else {
                g.start - base
            };
            assert(r->0@ =~= buf@.subrange(off, off + range_len(g)));
        }
    }
    r
}

impl Bytes {
    /// Returns the shared subset of `Bytes` that `subset` views.
    ///
    /// A `subset` within the bytes gives exactly its bytes, sharing the allocation; a non-empty
    /// `subset` outside them gives `None` rather than a panic. Whether it lies within depends on
    /// addresses, so this contract only says that a result has the bytes of `subset`.
    pub fn slice_ref(&self, subset: &[u8]) -> (r: Option<Bytes>)
        ensures
            subset@.len() == 0 ==> (r matches Some(b) && b@ == Seq::<u8>::empty()),
            r matches Some(b) ==> exists|off: int|
                0 <= off && off + subset@.len() <= self@.len() && b@ == #[trigger] self@.subrange(
                    off,
                    off + subset@.len(),
                ),
    {
        slice_of_bytes(range_of(subset), self)
    }
}

/// Returns `true` when `a` and `b` hold the same bytes.
pub fn same_bytes(a: &[u8], b: &[u8]) -> (r: bool)
    ensures
        r == (a@ == b@),
{
    if a.len() != b.len() {
        return false;
    }
    let mut i: usize = 0;
    while i < a.len()
        invariant
            a@.len() == b@.len(),
            i <= a@.len(),
            a@.take(i as int) == b@.take(i as int),
        decreases a@.len() - i,
    {
        if a[i] != b[i] {
            assert(a@[i as int] != b@[i as int]);
            return false;
        }
        assert(a@.take(i + 1) =~= a@.take(i as int).push(a@[i as int]));
        assert(b@.take(i + 1) =~= b@.take(i as int).push(b@[i as int]));
        i = i + 1;
    }
    assert(a@ =~= a@.take(i as int));
    assert(b@ =~= b@.take(i as int));
    true
}

} // verus!
