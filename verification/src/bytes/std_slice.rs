//! Specifications of the slice methods of std that the cursors use.
use vstd::prelude::*;

verus! {

/// `<[Elem]>::first_chunk` returns the first `N` elements when the slice holds at least `N` of
/// them, and `None` otherwise.
pub assume_specification<Elem, const N: usize>[ <[Elem]>::first_chunk::<N> ](slice: &[Elem]) -> (r: Option<&[Elem; N]>)
    ensures
        r is Some == (N <= slice@.len()),
        r is Some ==> r.unwrap()@ == slice@.subrange(0, N as int),
;

} // verus!
