//! A contiguous growable in memory buffer.
//!
//! # Capacity
//!
//! A `BytesMut` holds its bytes in a vector of its own, and its capacity is a window of a
//! logical allocation: `off` bytes from the beginning of the allocation, `cap` bytes long, of
//! which the first bytes hold the buffer's bytes. An allocation starts "unpromoted", the capacity
//! of one `BytesMut` alone, and is "promoted" to a reference counted record ([`Shared`]) of its
//! whole capacity when it is split: the two halves then share the record, and their windows
//! never overlap. The bytes of each half stay in its own vector; the windows account for the
//! capacity that each half may use and reclaim. On a split, the bytes after the split point keep
//! the vector, and thus their addresses; the bytes before it are copied.
//!
//! # Capacity Reclaim
//!
//! When reserving, a `BytesMut` first tries to reclaim leftover capacity: the capacity before its
//! window when the allocation is exclusively owned and the bytes fit before the window, and the
//! capacity after its window when it is the only handle of a promoted allocation.
use std::sync::Arc;
use vstd::prelude::*;

use super::shared::{self, Shared};
use super::Bytes;

verus! {

/// The largest capacity of an allocation.
pub open spec fn max_capacity() -> int {
    isize::MAX as int
}

/// A contiguous growable in memory buffer.
///
/// Semantically, this is similar to `Vec<u8>` with additional features: splitting keeps both
/// halves in the same allocation record, and advancing keeps the capacity before the bytes
/// reclaimable.
#[derive(Debug)]
pub struct BytesMut {
    /// Storage of the bytes: the bytes of the buffer are `buf[start..]`.
    buf: Vec<u8>,
    start: usize,
    /// Capacity of the window.
    cap: usize,
    /// Offset of the window from the beginning of the allocation.
    off: usize,
    /// Record of a promoted allocation.
    data: Option<Arc<Shared>>,
}

impl View for BytesMut {
    type V = Seq<u8>;

    closed spec fn view(&self) -> Seq<u8> {
        self.buf@.skip(self.start as int)
    }
}

impl BytesMut {
    /// The invariant of a `BytesMut`: the bytes fit the window, the window fits the
    /// allocation, and no allocation is larger than `isize::MAX` bytes.
    #[verifier::type_invariant]
    closed spec fn inv(&self) -> bool {
        &&& self.start <= self.buf@.len() <= usize::MAX
        &&& self.start <= self.off
        &&& self.buf@.len() - self.start <= self.cap
        &&& self.off + self.cap <= self.base_view()
        &&& self.base_view() <= max_capacity()
    }

    /// The capacity of the window.
    pub closed spec fn capacity_view(&self) -> nat {
        self.cap as nat
    }

    /// The offset of the window from the beginning of its allocation.
    pub closed spec fn offset_view(&self) -> nat {
        self.off as nat
    }

    /// The capacity of the whole allocation.
    pub closed spec fn base_view(&self) -> nat {
        match self.data {
            None => (self.off + self.cap) as nat,
            Some(shared) => shared.capacity_view(),
        }
    }

    /// `true` when the allocation is shared through a reference counted record.
    pub closed spec fn is_promoted(&self) -> bool {
        self.data is Some
    }

    /// `true` when growing the allocation for `additional` more bytes never exceeds the
    /// largest allocation.
    pub open spec fn grow_fits(&self, additional: nat) -> bool {
        &&& self.base_view() * 2 <= max_capacity()
        &&& self@.len() + self.offset_view() + additional <= max_capacity()
    }

    /// `true` when moving the bytes to the beginning of an exclusively owned allocation makes
    /// room for `additional` more bytes.
    pub open spec fn reclaim_fits(&self, additional: nat) -> bool {
        &&& !self.is_promoted()
        &&& self.capacity_view() > 0
        &&& self.offset_view() >= self@.len()
        &&& self.base_view() - self@.len() >= additional
    }

    /// `true` when a reservation of `additional` bytes never exceeds the largest allocation:
    /// either the capacity already suffices, or reclaiming suffices, or the allocation can grow.
    pub open spec fn reserve_fits(&self, additional: nat) -> bool {
        ||| additional == 0
        ||| self.capacity_view() - self@.len() >= additional
        ||| self.reclaim_fits(additional)
        ||| self.grow_fits(additional)
    }

    /// The largest capacity of the allocation after a reservation of `additional` bytes: twice
    /// the allocation, or the bytes from the beginning of the allocation and `additional` more,
    /// whichever is larger.
    pub open spec fn grown_base(&self, additional: nat) -> nat {
        let doubled = self.base_view() * 2;
        let needed = self@.len() + self.offset_view() + additional;
        if doubled >= needed {
            doubled
        } else {
            needed
        }
    }

    // ===== Constructor =====

    /// Constructs a new, empty `BytesMut`.
    ///
    /// This method does not allocate.
    pub fn new() -> (b: Self)
        ensures
            b@ == Seq::<u8>::empty(),
            b.capacity_view() == 0,
            b.offset_view() == 0,
            b.base_view() == 0,
            !b.is_promoted(),
    {
        let b = BytesMut { buf: Vec::new(), start: 0, cap: 0, off: 0, data: None };
        assert(b@ =~= Seq::<u8>::empty());
        b
    }

    /// Constructs a new, empty `BytesMut` with the specified capacity.
    ///
    /// The capacity must be at most `isize::MAX` bytes.
    pub fn with_capacity(capacity: usize) -> (b: Self)
        requires
            capacity <= max_capacity(),
        ensures
            b@ == Seq::<u8>::empty(),
            b.capacity_view() == capacity,
            b.offset_view() == 0,
            b.base_view() == capacity,
            !b.is_promoted(),
    {
        let b = BytesMut { buf: Vec::with_capacity(capacity), start: 0, cap: capacity, off: 0, data: None };
        assert(b@ =~= Seq::<u8>::empty());
        b
    }

    /// Constructs new `BytesMut`, and copy the given bytes to the buffer.
    pub fn copy_from_slice(slice: &[u8]) -> (b: Self)
        ensures
            b@ == slice@,
            b.capacity_view() == slice@.len(),
            b.offset_view() == 0,
            b.base_view() == slice@.len(),
            !b.is_promoted(),
    {
        let buf = vstd::slice::slice_to_vec(slice);
        let _ = shared::vec_capacity(&buf);
        let b = BytesMut { buf, start: 0, cap: slice.len(), off: 0, data: None };
        assert(b@ =~= slice@);
        b
    }

    /// Creates a `BytesMut` that owns the bytes and the capacity of `vec`.
    pub fn from_vec(vec: Vec<u8>) -> (b: Self)
        ensures
            b@ == vec@,
            b.capacity_view() >= vec@.len(),
            b.offset_view() == 0,
            b.base_view() == b.capacity_view(),
            !b.is_promoted(),
    {
        let cap = shared::vec_capacity(&vec);
        let b = BytesMut { buf: vec, start: 0, cap, off: 0, data: None };
        assert(b@ =~= vec@);
        b
    }

    // ===== Getters =====

    /// Returns the number of bytes in the `BytesMut`.
    pub fn len(&self) -> (n: usize)
        ensures
            n == self@.len(),
            n <= self.capacity_view() <= max_capacity(),
    {
        proof {
            use_type_invariant(self);
        }
        self.buf.len() - self.start
    }

    /// Returns `true` if `BytesMut` contains no bytes.
    pub fn is_empty(&self) -> (b: bool)
        ensures
            b == (self@.len() == 0),
    {
        proof {
            use_type_invariant(self);
        }
        self.buf.len() == self.start
    }

    /// Returns the total number of bytes that `BytesMut` can hold without reallocating.
    pub fn capacity(&self) -> (n: usize)
        ensures
            n == self.capacity_view(),
            self@.len() <= n <= max_capacity(),
    {
        proof {
            use_type_invariant(self);
        }
        self.cap
    }

    /// Returns the bytes as a shared slice.
    pub fn as_slice(&self) -> (s: &[u8])
        ensures
            s@ == self@,
    {
        proof {
            use_type_invariant(self);
        }
        let s = &self.buf.as_slice()[self.start..self.buf.len()];
        assert(s@ =~= self@);
        s
    }

    // ===== Allocation =====

    /// Reserves capacity for at least `additional` more bytes to be inserted.
    ///
    /// Before reallocating, `BytesMut` will attempt to reclaim any leftover capacity, either from
    /// unused allocation after calling [`advance`][BytesMut::advance], or other dropped instance
    /// capacity that share memory with this `BytesMut`.
    ///
    /// After calling reserve, capacity will be greater than or equal to `self.len() + additional`.
    /// Does nothing if capacity is already sufficient.
    pub fn reserve(&mut self, additional: usize)
        requires
            old(self).reserve_fits(additional as nat),
        ensures
            final(self)@ == old(self)@,
            final(self).capacity_view() >= old(self).capacity_view(),
            final(self).capacity_view() - final(self)@.len() >= additional,
            final(self).offset_view() <= old(self).offset_view(),
            final(self).base_view() <= old(self).grown_base(additional as nat),
            additional == 0 || old(self).capacity_view() - old(self)@.len() >= additional
                ==> *final(self) == *old(self),
            old(self).capacity_view() - old(self)@.len() < additional && old(self).reclaim_fits(
                additional as nat,
            ) ==> final(self).offset_view() == 0 && final(self).capacity_view() == old(
                self,
            ).base_view() && final(self).base_view() == old(self).base_view(),
    {
        proof {
            use_type_invariant(&*self);
        }
        if additional == 0 {
            return;
        }
        if self.cap - self.len() < additional {
            self.reserve_inner(additional);
        }
    }

    /// Try to reclaim leftover capacity without allocating.
    pub fn reclaim(&mut self)
        ensures
            final(self)@ == old(self)@,
            final(self).capacity_view() >= old(self).capacity_view(),
            final(self).is_promoted() == old(self).is_promoted(),
            final(self).base_view() == old(self).base_view(),
            final(self).offset_view() <= old(self).offset_view(),
            old(self).reclaim_fits(0) ==> final(self).offset_view() == 0
                && final(self).capacity_view() == old(self).base_view(),
    {
        self.reserve_inner(0);
    }

    /// Reclaims leftover capacity, then reallocates if the capacity is still less than
    /// `additional` more bytes.
    fn reserve_inner(&mut self, additional: usize)
        requires
            additional == 0 || old(self).reclaim_fits(additional as nat) || old(self).grow_fits(
                additional as nat,
            ),
        ensures
            final(self)@ == old(self)@,
            final(self).capacity_view() >= old(self).capacity_view(),
            final(self).capacity_view() - final(self)@.len() >= additional,
            final(self).offset_view() <= old(self).offset_view(),
            final(self).base_view() <= old(self).grown_base(additional as nat),
            additional == 0 ==> final(self).is_promoted() == old(self).is_promoted()
                && final(self).base_view() == old(self).base_view(),
            old(self).reclaim_fits(additional as nat) ==> final(self).offset_view() == 0
                && final(self).capacity_view() == old(self).base_view()
                && final(self).base_view() == old(self).base_view(),
    {
        proof {
            use_type_invariant(&*self);
        }
        let mut this = BytesMut::new();
        std::mem::swap(self, &mut this);
        proof {
            use_type_invariant(&this);
        }
        let ghost view = this@;
        let ghost old_base = this.base_view();
        let len = this.len();
        let BytesMut { mut buf, mut start, mut cap, mut off, mut data } = this;
        // the capacity of the allocation, when it is owned exclusively
        let base: Option<usize> = match &data {
            None => if cap == 0 {
                None
            } else {
                Some(cap + off)
            },
            Some(shared) => if shared::is_unique(shared) {
                let base_cap = shared.capacity();
                // reclaim the leftover tail capacity
                cap = base_cap - off;
                Some(base_cap)
            } else {
                None
            },
        };
        // copy the bytes backwards when the copy does not overlap and the allocation is owned
        let mut offset = off;
        if let Some(base_cap) = base {
            if offset >= len {
                move_to_front(&mut buf, start, len);
                start = 0;
                off = 0;
                cap = base_cap;
                offset = 0;
            }
        }
        if additional == 0 || cap - len >= additional {
            *self = BytesMut { buf, start, cap, off, data };
            assert(self@ =~= view);
            return;
        }
        let base_cap = match base {
            Some(base_cap) => base_cap,
            None => cap + offset,
        };
        let exp = base_cap * 2;
        let add = len + offset + additional;
        let new_cap = if exp > add {
            exp
        } else {
            add
        };
        match base {
            Some(_) => {
                if data.is_some() {
                    data = Some(shared::promote_with(new_cap));
                }
                cap = new_cap - offset;
            },
            None => {
                move_to_front(&mut buf, start, len);
                start = 0;
                off = 0;
                cap = new_cap;
                data = None;
            },
        }
        *self = BytesMut { buf, start, cap, off, data };
        assert(self@ =~= view);
    }

    // ===== Read =====

    /// Shortens the buffer, keeping the first `len` bytes and dropping the rest.
    ///
    /// If `len` is greater or equal to the `BytesMut` length, this has no effect.
    pub fn truncate(&mut self, len: usize)
        ensures
            len >= old(self)@.len() ==> final(self)@ == old(self)@,
            len < old(self)@.len() ==> final(self)@ == old(self)@.take(len as int),
            final(self).capacity_view() == old(self).capacity_view(),
            final(self).offset_view() == old(self).offset_view(),
            final(self).base_view() == old(self).base_view(),
            final(self).is_promoted() == old(self).is_promoted(),
    {
        proof {
            use_type_invariant(&*self);
        }
        if len < self.len() {
            let ghost prev = self@;
            let BytesMut { mut buf, start, cap, off, data } = self.take();
            buf.truncate(start + len);
            *self = BytesMut { buf, start, cap, off, data };
            assert(self@ =~= prev.take(len as int));
        }
    }

    /// Clears the `BytesMut`, removing all bytes.
    ///
    /// Note that this method has no effect on the allocated capacity.
    pub fn clear(&mut self)
        ensures
            final(self)@ == Seq::<u8>::empty(),
            final(self).capacity_view() == old(self).capacity_view(),
            final(self).offset_view() == old(self).offset_view(),
            final(self).base_view() == old(self).base_view(),
            final(self).is_promoted() == old(self).is_promoted(),
    {
        proof {
            use_type_invariant(&*self);
        }
        let BytesMut { mut buf, start, cap, off, data } = self.take();
        buf.truncate(start);
        *self = BytesMut { buf, start, cap, off, data };
        assert(self@ =~= Seq::<u8>::empty());
    }

    /// Moves the buffer out of `self`, leaving an empty buffer in its place.
    fn take(&mut self) -> (this: Self)
        ensures
            this == *old(self),
            this.inv(),
    {
        let mut this = BytesMut::new();
        std::mem::swap(self, &mut this);
        proof {
            use_type_invariant(&this);
        }
        this
    }

    /// Promotes the allocation to a shared record if needed, and returns one more handle to it.
    fn increment(&mut self) -> (shared: Arc<Shared>)
        ensures
            final(self)@ == old(self)@,
            final(self).capacity_view() == old(self).capacity_view(),
            final(self).offset_view() == old(self).offset_view(),
            final(self).base_view() == old(self).base_view(),
            final(self).is_promoted(),
            final(self).data == Some(shared),
    {
        proof {
            use_type_invariant(&*self);
        }
        match &self.data {
            None => {
                let shared = shared::promote_with(self.cap + self.off);
                let r = shared::increment(&shared);
                self.data = Some(shared);
                r
            },
            Some(shared) => shared::increment(shared),
        }
    }

    /// Removes all bytes, returning them in a new `BytesMut` instance.
    ///
    /// After the call, the original `BytesMut` will be empty; the returned `BytesMut` shares the
    /// same allocation record, with the capacity of the bytes it took.
    pub fn split(&mut self) -> (b: Self)
        ensures
            b@ == old(self)@,
            final(self)@ == Seq::<u8>::empty(),
            b.capacity_view() == old(self)@.len(),
            final(self).capacity_view() == old(self).capacity_view() - old(self)@.len(),
            b.offset_view() == old(self).offset_view(),
            final(self).offset_view() == old(self).offset_view() + old(self)@.len(),
            b.base_view() == old(self).base_view(),
            final(self).base_view() == old(self).base_view(),
            b.is_promoted() && final(self).is_promoted(),
    {
        let len = self.len();
        self.split_to_unchecked(len)
    }

    /// Splits `BytesMut` into two at the given index.
    ///
    /// Returns `BytesMut` containing the bytes in the range `[0, at)`. After the call, the
    /// original `BytesMut` will be left containing the bytes `[at, len)`.
    ///
    /// `at` must be at most `self.len()`.
    pub fn split_to(&mut self, at: usize) -> (b: Self)
        requires
            at <= old(self)@.len(),
        ensures
            b@ == old(self)@.take(at as int),
            final(self)@ == old(self)@.skip(at as int),
            b.capacity_view() == at,
            final(self).capacity_view() == old(self).capacity_view() - at,
            b.offset_view() == old(self).offset_view(),
            final(self).offset_view() == old(self).offset_view() + at,
            b.base_view() == old(self).base_view(),
            final(self).base_view() == old(self).base_view(),
            b.is_promoted() && final(self).is_promoted(),
    {
        self.split_to_unchecked(at)
    }

    /// Splits `BytesMut` into two at the given index.
    ///
    /// Returns `BytesMut` containing the bytes in the range `[0, at)`. After the call, the
    /// original `BytesMut` will be left containing the bytes `[at, len)`.
    ///
    /// Returns `None` if `at > self.len()`.
    pub fn try_split_to(&mut self, at: usize) -> (r: Option<Self>)
        ensures
            (at <= old(self)@.len()) == r is Some,
            r matches Some(b) ==> b@ == old(self)@.take(at as int) && final(self)@ == old(
                self,
            )@.skip(at as int),
            r matches Some(b) ==> b.base_view() == old(self).base_view() && final(self).base_view()
                == old(self).base_view(),
            r is None ==> *final(self) == *old(self),
    {
        if at <= self.len() {
            Some(self.split_to_unchecked(at))
        } else {
            None
        }
    }

    fn split_to_unchecked(&mut self, at: usize) -> (b: Self)
        requires
            at <= old(self)@.len(),
        ensures
            b@ == old(self)@.take(at as int),
            final(self)@ == old(self)@.skip(at as int),
            b.capacity_view() == at,
            final(self).capacity_view() == old(self).capacity_view() - at,
            b.offset_view() == old(self).offset_view(),
            final(self).offset_view() == old(self).offset_view() + at,
            b.base_view() == old(self).base_view(),
            final(self).base_view() == old(self).base_view(),
            b.is_promoted() && final(self).is_promoted(),
    {
        let shared = self.increment();
        proof {
            use_type_invariant(&*self);
        }
        let ghost prev = self@;
        let mut this = BytesMut::new();
        std::mem::swap(self, &mut this);
        proof {
            use_type_invariant(&this);
        }
        let BytesMut { buf, start, cap, off, data } = this;
        let head = vstd::slice::slice_to_vec(&buf.as_slice()[start..start + at]);
        let b = BytesMut { buf: head, start: 0, cap: at, off, data: Some(shared) };
        *self = BytesMut { buf, start: start + at, cap: cap - at, off: off + at, data };
        assert(b@ =~= prev.take(at as int));
        assert(self@ =~= prev.skip(at as int));
        b
    }

    /// Splits `BytesMut` into two at the given index.
    ///
    /// Returns `BytesMut` containing the bytes in the range `[at, len)`. After the call, the
    /// original `BytesMut` will be left containing the bytes `[0, at)`.
    ///
    /// The returned bytes stay where they are in memory, so an address range taken from them
    /// before the split (see [`range_of`](super::range_of)) still denotes them afterwards.
    /// `at` must be at most `self.len()`.
    pub fn split_off(&mut self, at: usize) -> (b: Self)
        requires
            at <= old(self)@.len(),
        ensures
            final(self)@ == old(self)@.take(at as int),
            b@ == old(self)@.skip(at as int),
            final(self).capacity_view() == at,
            b.capacity_view() == old(self).capacity_view() - at,
            final(self).offset_view() == old(self).offset_view(),
            b.offset_view() == old(self).offset_view() + at,
            b.base_view() == old(self).base_view(),
            final(self).base_view() == old(self).base_view(),
            b.is_promoted() && final(self).is_promoted(),
    {
        self.split_off_unchecked(at)
    }

    /// Splits `BytesMut` into two at the given index.
    ///
    /// Returns `BytesMut` containing the bytes in the range `[at, len)`. After the call, the
    /// original `BytesMut` will be left containing the bytes `[0, at)`.
    ///
    /// Returns `None` if `at > self.len()`.
    pub fn try_split_off(&mut self, at: usize) -> (r: Option<Self>)
        ensures
            (at <= old(self)@.len()) == r is Some,
            r matches Some(b) ==> final(self)@ == old(self)@.take(at as int) && b@ == old(
                self,
            )@.skip(at as int),
            r matches Some(b) ==> b.base_view() == old(self).base_view() && final(self).base_view()
                == old(self).base_view(),
            r is None ==> *final(self) == *old(self),
    {
        if at <= self.len() {
            Some(self.split_off_unchecked(at))
        } else {
            None
        }
    }

    fn split_off_unchecked(&mut self, at: usize) -> (b: Self)
        requires
            at <= old(self)@.len(),
        ensures
            final(self)@ == old(self)@.take(at as int),
            b@ == old(self)@.skip(at as int),
            final(self).capacity_view() == at,
            b.capacity_view() == old(self).capacity_view() - at,
            final(self).offset_view() == old(self).offset_view(),
            b.offset_view() == old(self).offset_view() + at,
            b.base_view() == old(self).base_view(),
            final(self).base_view() == old(self).base_view(),
            b.is_promoted() && final(self).is_promoted(),
    {
        proof {
            use_type_invariant(&*self);
        }
        let shared = self.increment();
        let ghost prev = self@;
        let BytesMut { buf, start, cap, off, data } = self.take();
        // the tail keeps the vector, so its bytes stay where they were
        let head = vstd::slice::slice_to_vec(&buf.as_slice()[start..start + at]);
        let b = BytesMut { buf, start: start + at, cap: cap - at, off: off + at, data: Some(shared) };
        *self = BytesMut { buf: head, start: 0, cap: at, off, data };
        assert(b@ =~= prev.skip(at as int));
        assert(self@ =~= prev.take(at as int));
        b
    }

    /// Advance the start of the bytes by `count`, dropping the first `count` bytes.
    ///
    /// The capacity before the bytes stays in the allocation and can be reclaimed by
    /// [`reserve`][BytesMut::reserve]. `count` must be at most `self.len()`.
    pub fn advance(&mut self, count: usize)
        requires
            count <= old(self)@.len(),
        ensures
            final(self)@ == old(self)@.skip(count as int),
            final(self).capacity_view() == old(self).capacity_view() - count,
            final(self).offset_view() == old(self).offset_view() + count,
            final(self).base_view() == old(self).base_view(),
            final(self).is_promoted() == old(self).is_promoted(),
    {
        proof {
            use_type_invariant(&*self);
        }
        if count == 0 {
            assert(self@ =~= old(self)@.skip(0));
            return;
        }
        let ghost prev = self@;
        let mut this = BytesMut::new();
        std::mem::swap(self, &mut this);
        proof {
            use_type_invariant(&this);
        }
        let BytesMut { buf, start, cap, off, data } = this;
        *self = BytesMut { buf, start: start + count, cap: cap - count, off: off + count, data };
        assert(self@ =~= prev.skip(count as int));
    }

    // ===== Write =====

    /// Copy and append bytes to the `BytesMut`.
    pub fn extend_from_slice(&mut self, extend: &[u8])
        requires
            old(self).reserve_fits(extend@.len()),
        ensures
            final(self)@ == old(self)@ + extend@,
            final(self).capacity_view() >= old(self).capacity_view(),
            final(self).offset_view() <= old(self).offset_view(),
            final(self).base_view() <= old(self).grown_base(extend@.len()),
            old(self).capacity_view() - old(self)@.len() >= extend@.len()
                ==> final(self).capacity_view() == old(self).capacity_view()
                && final(self).offset_view() == old(self).offset_view()
                && final(self).base_view() == old(self).base_view(),
    {
        proof {
            use_type_invariant(&*self);
        }
        self.reserve(extend.len());
        let ghost prev = self@;
        let BytesMut { mut buf, start, cap, off, data } = self.take();
        buf.extend_from_slice(extend);
        *self = BytesMut { buf, start, cap, off, data };
        assert(self@ =~= prev + extend@);
    }

    /// Absorbs a `BytesMut` that was previously split off.
    ///
    /// If the two `BytesMut` were previously contiguous, this just joins their windows of the
    /// allocation.
    ///
    /// Otherwise, it copies and append the bytes to the current `BytesMut`.
    pub fn unsplit(&mut self, other: BytesMut)
        requires
            old(self).reserve_fits(other@.len()),
        ensures
            final(self)@ == old(self)@ + other@,
            old(self)@.len() == 0 ==> *final(self) == other,
            old(self)@.len() > 0 ==> final(self).offset_view() <= old(self).offset_view()
                && final(self).base_view() <= old(self).grown_base(other@.len()),
    {
        if self.is_empty() {
            assert(other@ =~= old(self)@ + other@);
            *self = other;
            return;
        }
        match self.try_unsplit(other) {
            Ok(()) => {},
            Err(other) => {
                self.extend_from_slice(other.as_slice());
            },
        }
    }

    /// `true` when the window of `other` starts where the bytes of `self` end, both windows
    /// being in promoted allocations of one size, and `self` holding no spare capacity: the two
    /// are the front and the back of what was one buffer.
    pub open spec fn adjacent_to(&self, other: &BytesMut) -> bool {
        &&& self.is_promoted()
        &&& other.is_promoted()
        &&& self.base_view() == other.base_view()
        &&& self.capacity_view() == self@.len()
        &&& self.offset_view() + self@.len() == other.offset_view()
    }

    /// Absorbs a `BytesMut` that was previously split off.
    ///
    /// If the two `BytesMut` were previously contiguous in one allocation, and `self` is the one
    /// in front, this joins their windows of the allocation and returns [`Ok`].
    ///
    /// Otherwise, it returns [`Err`] containing the same given `BytesMut`.
    pub fn try_unsplit(&mut self, other: BytesMut) -> (r: Result<(), BytesMut>)
        ensures
            other.capacity_view() == 0 ==> r is Ok,
            other.capacity_view() > 0 && !(old(self).is_promoted() && other.is_promoted()
                && old(self).capacity_view() == old(self)@.len() && old(self).offset_view()
                + old(self)@.len() == other.offset_view()) ==> r is Err,
            other.capacity_view() > 0 && !old(self).adjacent_to(&other) ==> r is Err,
            r is Ok ==> final(self)@ == old(self)@ + other@,
            r is Ok ==> final(self).offset_view() == old(self).offset_view()
                && final(self).base_view() == old(self).base_view(),
            r is Ok && other.capacity_view() > 0 ==> final(self).capacity_view() == old(
                self,
            ).capacity_view() + other.capacity_view(),
            r matches Err(o) ==> o == other && *final(self) == *old(self),
    {
        let same = match (&self.data, &other.data) {
            (Some(a), Some(b)) => shared::same_allocation(a, b),
            _ => false,
        };
        self.join_windows(other, same)
    }

    /// Joins `other` behind `self` when `other` holds no capacity, or when `same_allocation` says
    /// that the two share one allocation record and the window of `other` starts where the bytes
    /// of `self` end; otherwise returns [`Err`] with `other`.
    ///
    /// This is the decision of [`try_unsplit`](BytesMut::try_unsplit), given whether the two
    /// handles point to the same record.
    pub fn join_windows(&mut self, other: BytesMut, same_allocation: bool) -> (r: Result<(), BytesMut>)
        ensures
            (r is Ok) == (other.capacity_view() == 0 || (same_allocation && old(self).adjacent_to(
                &other,
            ))),
            r is Ok ==> final(self)@ == old(self)@ + other@,
            r is Ok ==> final(self).offset_view() == old(self).offset_view()
                && final(self).base_view() == old(self).base_view()
                && final(self).is_promoted() == old(self).is_promoted(),
            r is Ok && other.capacity_view() > 0 ==> final(self).capacity_view() == old(
                self,
            ).capacity_view() + other.capacity_view(),
            r matches Err(o) ==> o == other && *final(self) == *old(self),
    {
        proof {
            use_type_invariant(&*self);
            use_type_invariant(&other);
        }
        if other.cap == 0 {
            assert(other@ =~= Seq::<u8>::empty());
            assert(self@ =~= old(self)@ + other@);
            return Ok(());
        }
        let len = self.len();
        let contiguous = match (&self.data, &other.data) {
            (Some(a), Some(b)) => same_allocation && a.capacity() == b.capacity() && self.cap == len
                && self.off + len == other.off,
            _ => false,
        };
        if contiguous {
            let ghost prev = self@;
            let BytesMut { mut buf, start, cap, off, data } = self.take();
            buf.extend_from_slice(other.as_slice());
            *self = BytesMut { buf, start, cap: cap + other.cap, off, data };
            assert(self@ =~= prev + other@);
            Ok(())
        } else {
            Err(other)
        }
    }

    /// Creates a `BytesMut` from the parts of a buffer: the bytes from `start` of `buf`, in a
    /// window of `cap` bytes, `off` bytes from the beginning of the allocation.
    pub(crate) fn from_parts(buf: Vec<u8>, start: usize, cap: usize, off: usize, data: Option<Arc<Shared>>) -> (b: Self)
        requires
            start <= buf@.len(),
            start <= off,
            buf@.len() - start <= cap,
            data is None ==> off + cap <= max_capacity(),
            data matches Some(shared) ==> off + cap <= shared.capacity_view() <= max_capacity(),
        ensures
            b@ == buf@.skip(start as int),
            b.capacity_view() == cap,
            b.offset_view() == off,
    {
        BytesMut { buf, start, cap, off, data }
    }

    // ===== Conversion =====

    /// Converts `self` into an immutable [`Bytes`].
    ///
    /// The returned `Bytes` reuse the vector of the bytes, no copy is performed.
    pub fn freeze(self) -> (b: Bytes)
        ensures
            b@ == self@,
    {
        proof {
            use_type_invariant(&self);
        }
        let ghost view = self@;
        let BytesMut { buf, start, cap, off, data } = self;
        let b = Bytes::from_parts(buf, start);
        assert(b@ =~= view);
        b
    }

    /// Converts `self` into a byte vector.
    ///
    /// If the allocation is not shared with another buffer, the vector is reused, otherwise the
    /// bytes are copied to a new vector.
    pub fn into_vec(self) -> (v: Vec<u8>)
        ensures
            v@ == self@,
    {
        proof {
            use_type_invariant(&self);
        }
        let len = self.len();
        let ghost view = self@;
        let BytesMut { mut buf, start, cap, off, data } = self;
        let exclusive = match data {
            None => true,
            Some(shared) => shared::is_unique(&shared),
        };
        if exclusive {
            move_to_front(&mut buf, start, len);
            assert(buf@ =~= view);
            buf
        } else {
            let v = vstd::slice::slice_to_vec(&buf.as_slice()[start..start + len]);
            assert(v@ =~= view);
            v
        }
    }
}

/// The two halves that a split leaves are adjacent: the front holds no spare capacity and the
/// window of the back starts where the bytes of the front end, in the same allocation, so they
/// can be joined back.
pub proof fn lemma_split_halves_adjacent(whole: BytesMut, front: BytesMut, back: BytesMut, at: nat)
    requires
        at <= whole@.len(),
        front@ == whole@.take(at as int),
        back@ == whole@.skip(at as int),
        front.capacity_view() == at,
        front.offset_view() == whole.offset_view(),
        back.offset_view() == whole.offset_view() + at,
        front.base_view() == whole.base_view(),
        back.base_view() == whole.base_view(),
        front.is_promoted() && back.is_promoted(),
    ensures
        front.adjacent_to(&back),
{
}

/// Moves the bytes from `start` of `vec` to its front.
fn move_to_front(vec: &mut Vec<u8>, start: usize, len: usize)
    requires
        start + len == old(vec)@.len(),
    ensures
        final(vec)@ == old(vec)@.skip(start as int),
{
    super::bytes::move_to_front(vec, start, len);
    assert(vec@ =~= old(vec)@.skip(start as int));
}

} // verus!
