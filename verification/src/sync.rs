//! Synchronization primitives.
pub mod recall;
