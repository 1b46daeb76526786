//! The reference counted record of an allocation shared by several buffers, and the calls on
//! reference counted values and vectors that the buffers make.
use std::sync::Arc;
use vstd::prelude::*;

verus! {

/// The record of an allocation that several [`BytesMut`][super::BytesMut] share.
///
/// The number of handles that share an allocation is the number of strong references to its
/// `Arc<Shared>`; the record holds the capacity of the whole allocation.
#[derive(Debug)]
pub struct Shared {
    cap: usize,
}

impl Shared {
    /// The capacity of the whole allocation.
    pub closed spec fn capacity_view(&self) -> nat {
        self.cap as nat
    }

    /// Creates the record of an allocation with capacity `cap`.
    pub fn new(cap: usize) -> (s: Self)
        ensures
            s.capacity_view() == cap,
    {
        Shared { cap }
    }

    /// Returns the capacity of the whole allocation.
    pub fn capacity(&self) -> (c: usize)
        ensures
            c == self.capacity_view(),
    {
        self.cap
    }

    /// Records that the allocation grew to `new_cap`.
    pub fn grow(&mut self, new_cap: usize)
        ensures
            final(self).capacity_view() == new_cap,
    {
        self.cap = new_cap;
    }
}

/// Creates a shared record of an allocation with capacity `cap`, held by one handle.
pub fn promote_with(cap: usize) -> (s: Arc<Shared>)
    ensures
        s.capacity_view() == cap,
{
    Arc::new(Shared::new(cap))
}

/// Returns one more handle to the same shared value (`Arc::clone`).
///
/// The new handle points to the same value.
#[verifier::external_body]
pub fn increment<A>(shared: &Arc<A>) -> (r: Arc<A>)
    ensures
        r == *shared,
{
    Arc::clone(shared)
}

/// The number of handles that share the value (`Arc::strong_count`).
///
/// The count depends on the other handles alive at the time of the call, so nothing is stated
/// of it.
#[verifier::external_body]
fn ref_count<A>(shared: &Arc<A>) -> usize {
    Arc::strong_count(shared)
}

/// Returns `true` if `shared` is the only handle to its value.
pub fn is_unique<A>(shared: &Arc<A>) -> (b: bool) {
    ref_count(shared) == 1
}

/// Takes the value out of `shared` if it is the only handle to it (`Arc::try_unwrap`), else
/// hands the handle back.
///
/// Which of the two happens depends on the other handles alive at the time of the call, so
/// only what each outcome holds is stated.
#[verifier::external_body]
pub fn try_unwrap<A>(shared: Arc<A>) -> (r: Result<A, Arc<A>>)
    ensures
        match r {
            Ok(t) => t == *shared,
            Err(e) => e == shared,
        },
{
    Arc::try_unwrap(shared)
}

/// Releases one handle to the shared allocation.
pub fn release(shared: Arc<Shared>) {
    let _ = shared;
}

/// Returns `true` if `a` and `b` are handles to the same record (`Arc::ptr_eq`).
///
/// Whether two handles point to the same record is a matter of addresses, so nothing is stated
/// of the result.
#[verifier::external_body]
pub fn same_allocation(a: &Arc<Shared>, b: &Arc<Shared>) -> bool {
    Arc::ptr_eq(a, b)
}

/// The capacity of a vector (`Vec::capacity`): at least its length, and, for bytes, at most
/// `isize::MAX`.
#[verifier::external_body]
pub fn vec_capacity(vec: &Vec<u8>) -> (c: usize)
    ensures
        vec@.len() <= c <= isize::MAX,
{
    vec.capacity()
}

} // verus!
