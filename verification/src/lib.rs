//! Utilities for working with raw bytes and asynchronous io.
use vstd::prelude::*;

pub mod atoi;
pub mod bytes;
pub mod either;
pub mod fmt;
pub mod io;
pub mod io_task;
pub mod num;
pub mod slice;
pub mod sync;

verus! {

} // verus!
