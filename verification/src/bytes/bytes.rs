//! A cheaply cloneable and sliceable chunk of contiguous memory.
use std::sync::Arc;
use vstd::prelude::*;

use super::shared;
use super::BytesMut;

verus! {

/// Where the bytes of a [`Bytes`] live.
#[derive(Debug)]
enum Storage {
    /// No bytes at all.
    Empty,
    /// Bytes borrowed for the whole program.
    Static(&'static [u8]),
    /// Bytes of a heap allocation, shared by every `Bytes` that views a part of it.
    Heap(Arc<Vec<u8>>),
}

/// The bytes of a storage.
spec fn storage_view(s: &Storage) -> Seq<u8> {
    match s {
        Storage::Empty => Seq::empty(),
        Storage::Static(b) => b@,
        Storage::Heap(v) => v@,
    }
}

/// Returns the bytes of a storage.
fn storage_slice(s: &Storage) -> (r: &[u8])
    ensures
        r@ == storage_view(s),
{
    match s {
        Storage::Empty => {
            let r: &[u8] = &[];
            assert(r@ =~= Seq::<u8>::empty());
            r
        },
        Storage::Static(b) => b,
        Storage::Heap(v) => v.as_slice(),
    }
}

/// A cheaply cloneable and sliceable chunk of contiguous memory.
///
/// A `Bytes` is a view of `len` bytes, starting at `start`, of a storage. Cloning, slicing and
/// splitting a `Bytes` on the heap share the same allocation; its reference count tells whether
/// a `Bytes` is the only handle to it.
#[derive(Debug)]
pub struct Bytes {
    storage: Storage,
    start: usize,
    len: usize,
}

impl View for Bytes {
    type V = Seq<u8>;

    closed spec fn view(&self) -> Seq<u8> {
        storage_view(&self.storage).subrange(self.start as int, self.start + self.len)
    }
}

impl Bytes {
    /// The invariant of a `Bytes`: its view lies within its storage.
    #[verifier::type_invariant]
    closed spec fn inv(&self) -> bool {
        self.start + self.len <= storage_view(&self.storage).len() <= usize::MAX
    }

    /// `true` when the bytes are not on the heap, thus never the unique handle of an
    /// allocation.
    pub closed spec fn is_static(&self) -> bool {
        !(self.storage is Heap)
    }

    /// Creates an empty `Bytes` that holds no allocation.
    fn empty() -> (b: Self)
        ensures
            b@ == Seq::<u8>::empty(),
            b.is_static(),
    {
        let b = Bytes { storage: Storage::Empty, start: 0, len: 0 };
        assert(b@ =~= Seq::<u8>::empty());
        b
    }

    /// Create new empty [`Bytes`].
    pub fn new() -> (b: Self)
        ensures
            b@ == Seq::<u8>::empty(),
            b.is_static(),
    {
        Self::empty()
    }

    /// Create new [`Bytes`] from static slice.
    ///
    /// Additionally, [`is_unique`][Bytes::is_unique] will always returns `false`.
    pub fn from_static(bytes: &'static [u8]) -> (b: Self)
        ensures
            b@ == bytes@,
            b.is_static(),
    {
        assert(bytes@.len() == bytes.len());
        let b = Bytes { storage: Storage::Static(bytes), start: 0, len: bytes.len() };
        assert(b@ =~= bytes@);
        b
    }

    /// Create new [`Bytes`] by copying given bytes.
    pub fn copy_from_slice(slice: &[u8]) -> (b: Self)
        ensures
            b@ == slice@,
            b.is_static() == (slice@.len() == 0),
    {
        Self::from_vec(vstd::slice::slice_to_vec(slice))
    }

    /// Creates `Bytes` that own the bytes of `vec`, reusing its allocation.
    ///
    /// An empty vector gives an empty `Bytes` that holds no allocation.
    pub fn from_vec(vec: Vec<u8>) -> (b: Self)
        ensures
            b@ == vec@,
            b.is_static() == (vec@.len() == 0),
    {
        let len = vec.len();
        if len == 0 {
            let b = Self::empty();
            assert(b@ =~= vec@);
            return b;
        }
        assert(vec@.len() == vec.len());
        let b = Bytes { storage: Storage::Heap(Arc::new(vec)), start: 0, len };
        assert(b@ =~= vec@);
        b
    }

    /// Creates `Bytes` that view the bytes of `buf` from `start`, reusing its allocation.
    pub(crate) fn from_parts(buf: Vec<u8>, start: usize) -> (b: Self)
        requires
            start <= buf@.len(),
        ensures
            b@ == buf@.skip(start as int),
    {
        let len = buf.len() - start;
        if len == 0 {
            let b = Self::empty();
            assert(b@ =~= buf@.skip(start as int));
            return b;
        }
        assert(buf@.len() == buf.len());
        let b = Bytes { storage: Storage::Heap(Arc::new(buf)), start, len };
        assert(b@ =~= buf@.skip(start as int));
        b
    }

    // ===== Getters =====

    /// Returns the number of bytes in the `Bytes`.
    pub fn len(&self) -> (n: usize)
        ensures
            n == self@.len(),
    {
        proof {
            use_type_invariant(self);
        }
        self.len
    }

    /// Returns `true` if `Bytes` contains no bytes.
    pub fn is_empty(&self) -> (b: bool)
        ensures
            b == (self@.len() == 0),
    {
        proof {
            use_type_invariant(self);
        }
        self.len == 0
    }

    /// Extracts a slice containing the entire bytes.
    pub fn as_slice(&self) -> (s: &[u8])
        ensures
            s@ == self@,
    {
        proof {
            use_type_invariant(self);
        }
        let all = storage_slice(&self.storage);
        &all[self.start..self.start + self.len]
    }

    /// Returns `true` if `Bytes` is the only handle in a shared buffer.
    ///
    /// `Bytes` constructed from [`Bytes::from_static`] will always returns `false`.
    pub fn is_unique(&self) -> (b: bool)
        ensures
            self.is_static() ==> !b,
    {
        match &self.storage {
            Storage::Heap(vec) => shared::is_unique(vec),
            _ => false,
        }
    }

    /// A `Bytes` that views `len` bytes from `start` of the same bytes, sharing the allocation.
    fn share_range(&self, start: usize, len: usize) -> (b: Self)
        requires
            start + len <= self@.len(),
        ensures
            b@ == self@.subrange(start as int, start + len),
            b.is_static() == self.is_static(),
    {
        proof {
            use_type_invariant(self);
        }
        let storage = match &self.storage {
            Storage::Empty => Storage::Empty,
            Storage::Static(bytes) => Storage::Static(bytes),
            Storage::Heap(vec) => Storage::Heap(shared::increment(vec)),
        };
        let b = Bytes { storage, start: self.start + start, len };
        assert(b@ =~= self@.subrange(start as int, start + len));
        b
    }

    // ===== Split/Slice =====

    /// Returns the shared subset of `Bytes` with given range.
    ///
    /// `range` should be in bounds of bytes length.
    pub fn slice(&self, range: core::ops::Range<usize>) -> (b: Self)
        requires
            range.start <= range.end <= self@.len(),
        ensures
            b@ == self@.subrange(range.start as int, range.end as int),
    {
        match self.try_slice_bound(range.start, range.end) {
            Some(b) => b,
            None => Self::empty(),
        }
    }

    /// Returns the shared subset of `Bytes` from `begin` to `end`, or `None` if the range is
    /// out of bounds.
    fn try_slice_bound(&self, begin: usize, end: usize) -> (r: Option<Self>)
        ensures
            (begin <= end <= self@.len()) == r is Some,
            r matches Some(b) ==> b@ == self@.subrange(begin as int, end as int),
    {
        proof {
            use_type_invariant(self);
        }
        if end > self.len {
            return None;
        }
        if end < begin {
            return None;
        }
        let len = end - begin;
        if len == 0 {
            let b = Self::empty();
            assert(b@ =~= self@.subrange(begin as int, end as int));
            return Some(b);
        }
        Some(self.share_range(begin, len))
    }

    /// Shortens the buffer, keeping the first `len` bytes and dropping the rest.
    ///
    /// If `len` is greater or equal to the `Bytes` length, this has no effect.
    pub fn truncate(&mut self, len: usize)
        ensures
            len >= old(self)@.len() ==> final(self)@ == old(self)@,
            len < old(self)@.len() ==> final(self)@ == old(self)@.take(len as int),
            final(self).is_static() == old(self).is_static(),
    {
        proof {
            use_type_invariant(&*self);
        }
        if len >= self.len {
            return;
        }
        let ghost prev = self@;
        self.len = len;
        assert(self@ =~= prev.take(len as int));
    }

    /// Clears the buffer, removing all values.
    pub fn clear(&mut self)
        ensures
            final(self)@ == Seq::<u8>::empty(),
            final(self).is_static(),
    {
        *self = Self::empty();
    }

    /// Advance the start of the bytes by `count`, dropping the first `count` bytes.
    ///
    /// `count` must be less than or equal to the bytes length.
    pub fn advance(&mut self, count: usize)
        requires
            count <= old(self)@.len(),
        ensures
            final(self)@ == old(self)@.skip(count as int),
            count < old(self)@.len() ==> final(self).is_static() == old(self).is_static(),
            count == old(self)@.len() ==> final(self).is_static(),
    {
        proof {
            use_type_invariant(&*self);
        }
        if count == self.len {
            self.clear();
            assert(self@ =~= old(self)@.skip(count as int));
            return;
        }
        let ghost prev = self@;
        self.len = self.len - count;
        self.start = self.start + count;
        assert(self@ =~= prev.skip(count as int));
    }

    // ===== Splitting =====

    /// Splits `Bytes` into two at the given index.
    ///
    /// Afterwards `self` contains elements `[0, at)`, and the returned `Bytes` contains
    /// elements `[at, len)`.
    ///
    /// `at` must be at most `self.len()`.
    pub fn split_off(&mut self, at: usize) -> (b: Self)
        requires
            at <= old(self)@.len(),
        ensures
            final(self)@ == old(self)@.take(at as int),
            b@ == old(self)@.skip(at as int),
    {
        match self.try_split_off(at) {
            Some(b) => b,
            None => Self::empty(),
        }
    }

    /// Splits `Bytes` into two at the given index.
    ///
    /// Afterwards `self` contains elements `[0, at)`, and the returned `Bytes` contains
    /// elements `[at, len)`.
    ///
    /// Returns `None` if `at > self.len()`.
    pub fn try_split_off(&mut self, at: usize) -> (r: Option<Self>)
        ensures
            (at <= old(self)@.len()) == r is Some,
            r matches Some(b) ==> final(self)@ == old(self)@.take(at as int) && b@
                == old(self)@.skip(at as int),
            r is None ==> final(self)@ == old(self)@,
    {
        proof {
            use_type_invariant(&*self);
        }
        if at == 0 {
            let mut whole = Self::empty();
            std::mem::swap(self, &mut whole);
            assert(self@ =~= old(self)@.take(0));
            assert(whole@ =~= old(self)@.skip(0));
            return Some(whole);
        }
        if at == self.len {
            let b = Self::empty();
            assert(self@ =~= old(self)@.take(at as int));
            assert(b@ =~= old(self)@.skip(at as int));
            return Some(b);
        }
        if at > self.len {
            return None;
        }
        let tail = self.share_range(at, self.len - at);
        let ghost prev = self@;
        self.len = at;
        assert(self@ =~= prev.take(at as int));
        assert(tail@ =~= prev.skip(at as int));
        Some(tail)
    }

    /// Splits `Bytes` into two at the given index.
    ///
    /// Afterwards `self` contains elements `[at, len)`, and the returned `Bytes` contains
    /// elements `[0, at)`.
    ///
    /// `at` must be at most `self.len()`.
    pub fn split_to(&mut self, at: usize) -> (b: Self)
        requires
            at <= old(self)@.len(),
        ensures
            final(self)@ == old(self)@.skip(at as int),
            b@ == old(self)@.take(at as int),
    {
        match self.try_split_to(at) {
            Some(b) => b,
            None => Self::empty(),
        }
    }

    /// Splits `Bytes` into two at the given index.
    ///
    /// Afterwards `self` contains elements `[at, len)`, and the returned `Bytes` contains
    /// elements `[0, at)`.
    ///
    /// Returns `None` if `at > self.len()`.
    pub fn try_split_to(&mut self, at: usize) -> (r: Option<Self>)
        ensures
            (at <= old(self)@.len()) == r is Some,
            r matches Some(b) ==> final(self)@ == old(self)@.skip(at as int) && b@
                == old(self)@.take(at as int),
            r is None ==> final(self)@ == old(self)@,
    {
        proof {
            use_type_invariant(&*self);
        }
        if at == 0 {
            let b = Self::empty();
            assert(self@ =~= old(self)@.skip(0));
            assert(b@ =~= old(self)@.take(0));
            return Some(b);
        }
        if at == self.len {
            let mut whole = Self::empty();
            std::mem::swap(self, &mut whole);
            assert(self@ =~= old(self)@.skip(at as int));
            assert(whole@ =~= old(self)@.take(at as int));
            return Some(whole);
        }
        if at > self.len {
            return None;
        }
        let head = self.share_range(0, at);
        let ghost prev = self@;
        self.len = self.len - at;
        self.start = self.start + at;
        assert(self@ =~= prev.skip(at as int));
        assert(head@ =~= prev.take(at as int));
        Some(head)
    }

    // ===== Convertion =====

    /// Converts a [`Bytes`] into a byte vector.
    ///
    /// If [`Bytes::is_unique`] returns `true`, the buffer is consumed and returned.
    ///
    /// Otherwise, the buffer is copied to new allocation.
    pub fn into_vec(self) -> (v: Vec<u8>)
        ensures
            v@ == self@,
    {
        proof {
            use_type_invariant(&self);
        }
        let ghost view = self@;
        let Bytes { storage, start, len } = self;
        match storage {
            Storage::Heap(shared) => match shared::try_unwrap(shared) {
                Ok(mut vec) => {
                    move_to_front(&mut vec, start, len);
                    assert(vec@ =~= view);
                    vec
                },
                Err(shared) => {
                    let v = vstd::slice::slice_to_vec(&shared.as_slice()[start..start + len]);
                    assert(v@ =~= view);
                    v
                },
            },
            storage => {
                let all = storage_slice(&storage);
                let v = vstd::slice::slice_to_vec(&all[start..start + len]);
                assert(v@ =~= view);
                v
            },
        }
    }

    /// Converts a [`Bytes`] into a [`BytesMut`].
    ///
    /// If [`Bytes::is_unique`] returns `true`, the buffer is consumed and returned.
    ///
    /// Otherwise, the buffer is copied to new allocation.
    pub fn into_mut(self) -> (b: BytesMut)
        ensures
            b@ == self@,
            b.capacity_view() == self@.len(),
    {
        proof {
            use_type_invariant(&self);
        }
        let ghost view = self@;
        let Bytes { storage, start, len } = self;
        match storage {
            Storage::Heap(shared) => match shared::try_unwrap(shared) {
                Ok(mut vec) => {
                    vec.truncate(start + len);
                    // a vector never holds more than `isize::MAX` bytes
                    let _ = shared::vec_capacity(&vec);
                    assert(vec@.skip(start as int) =~= view);
                    BytesMut::from_parts(vec, start, len, start, None)
                },
                Err(shared) => BytesMut::copy_from_slice(&shared.as_slice()[start..start + len]),
            },
            storage => {
                let all = storage_slice(&storage);
                BytesMut::copy_from_slice(&all[start..start + len])
            },
        }
    }
}

/// Moves the `len` bytes at `start` of `vec` to its front, and drops the rest.
pub(crate) fn move_to_front(vec: &mut Vec<u8>, start: usize, len: usize)
    requires
        start + len <= old(vec)@.len(),
    ensures
        final(vec)@ == old(vec)@.subrange(start as int, start + len),
{
    assert(vec@.len() == vec.len());
    let mut i: usize = 0;
    while i < len
        invariant
            start + len <= vec@.len() == old(vec)@.len() <= usize::MAX,
            0 <= i <= len,
            forall|k: int| 0 <= k < i ==> vec@[k] == old(vec)@[start + k],
            forall|k: int| i <= k < len ==> #[trigger] vec@[start + k] == old(vec)@[start + k],
        decreases len - i,
    {
        let b = vec[start + i];
        vec.set(i, b);
        i = i + 1;
    }
    vec.truncate(len);
    assert(vec@ =~= old(vec)@.subrange(start as int, start + len));
}

impl Clone for Bytes {
    /// Returns a `Bytes` with the same bytes, sharing the same allocation.
    fn clone(&self) -> (b: Self)
        ensures
            b@ == self@,
            b.is_static() == self.is_static(),
    {
        proof {
            use_type_invariant(self);
        }
        let storage = match &self.storage {
            Storage::Empty => Storage::Empty,
            Storage::Static(bytes) => Storage::Static(bytes),
            Storage::Heap(vec) => Storage::Heap(shared::increment(vec)),
        };
        Bytes { storage, start: self.start, len: self.len }
    }
}

/// Splitting bytes at any index into the bytes before and the bytes from it loses nothing:
/// the two parts, one after the other, are the bytes split.
pub proof fn lemma_split_rejoin(s: Seq<u8>, at: int)
    requires
        0 <= at <= s.len(),
    ensures
        s.take(at) + s.skip(at) == s,
{
    assert(s.take(at) + s.skip(at) =~= s);
}

} // verus!
