//! Equality of buffers: two buffers are equal when they hold the same bytes.
use vstd::prelude::*;
use vstd::std_specs::cmp::PartialEqSpecImpl;

use super::range::same_bytes;
use super::{ByteStr, Bytes, BytesMut};

verus! {

impl PartialEq for Bytes {
    fn eq(&self, other: &Self) -> (r: bool) {
        same_bytes(self.as_slice(), other.as_slice())
    }
}

impl PartialEqSpecImpl for Bytes {
    open spec fn obeys_eq_spec() -> bool {
        true
    }

    open spec fn eq_spec(&self, other: &Self) -> bool {
        self@ == other@
    }
}

impl Eq for Bytes {}

impl PartialEq for BytesMut {
    fn eq(&self, other: &Self) -> (r: bool) {
        same_bytes(self.as_slice(), other.as_slice())
    }
}

impl PartialEqSpecImpl for BytesMut {
    open spec fn obeys_eq_spec() -> bool {
        true
    }

    open spec fn eq_spec(&self, other: &Self) -> bool {
        self@ == other@
    }
}

impl Eq for BytesMut {}

impl PartialEq for ByteStr {
    fn eq(&self, other: &Self) -> (r: bool) {
        same_bytes(self.as_bytes(), other.as_bytes())
    }
}

impl PartialEqSpecImpl for ByteStr {
    open spec fn obeys_eq_spec() -> bool {
        true
    }

    open spec fn eq_spec(&self, other: &Self) -> bool {
        self@ == other@
    }
}

impl Eq for ByteStr {}

} // verus!
