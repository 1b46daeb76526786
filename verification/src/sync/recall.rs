//! The states of a value shared by its owner, a `Recall`, and at most one borrower, an `Agent`.
//!
//! A `Recall` owns a value and can lend exclusive access to it to one `Agent`, which may live on
//! another thread. The two share one state byte, changed by atomic operations: the `Recall` flag
//! is set while the `Recall` lives, the `Agent` flag while an `Agent` lives. Whichever of the two
//! is dropped last frees the value.
//!
//! This module holds what each atomic operation decides from the state it read; the atomic
//! operations themselves, and the value, stay with their caller.
use vstd::prelude::*;

verus! {

/// The flag of a live `Recall`.
pub const IS_RECALL: u8 = 0b0000_0001;

/// The flag of a live `Agent`.
pub const IS_AGENT: u8 = 0b0000_0010;

/// The state once the `Recall` is dropped.
pub const DROPPED: u8 = 0;

/// The state while both the `Recall` and an `Agent` live.
pub const LENT: u8 = 0b0000_0011;

/// What dropping a handle does to the shared value.
#[derive(Debug, PartialEq, Eq, Structural)]
pub enum DropAction {
    /// The other handle still lives and frees the value when it is dropped.
    Keep,
    /// This handle was the last one: free the value.
    Free,
    /// The state read is not one that a live handle can see.
    Invalid,
}

/// What dropping the `Recall` does, given the state it read: it keeps the value while an `Agent`
/// lives, and frees it when it was the only handle.
pub open spec fn recall_drop_action(old: u8) -> DropAction {
    if old == LENT {
        DropAction::Keep
    } else if old == IS_RECALL {
        DropAction::Free
    } else {
        DropAction::Invalid
    }
}

/// What dropping the `Agent` does, given the state it read: it keeps the value while the
/// `Recall` lives, and frees it once the `Recall` is dropped.
pub open spec fn agent_drop_action(old: u8) -> DropAction {
    if old == LENT {
        DropAction::Keep
    } else if old == DROPPED {
        DropAction::Free
    } else {
        DropAction::Invalid
    }
}

/// The state of a new `Recall`.
pub fn initial_state() -> (s: u8)
    ensures
        s == IS_RECALL,
{
    IS_RECALL
}

/// Whether the value is exclusively the `Recall`'s, given the state: no `Agent` lives.
pub fn is_unique(state: u8) -> (b: bool)
    ensures
        b == (state == IS_RECALL),
{
    state == IS_RECALL
}

/// Whether lending succeeds, given the state read before the `Agent` flag was added: only
/// when no `Agent` already lives.
pub fn lend_granted(old: u8) -> (b: bool)
    ensures
        b == (old == IS_RECALL),
{
    old == IS_RECALL
}

/// What dropping the `Recall` does, given the state it swapped for [`DROPPED`].
pub fn drop_recall(old: u8) -> (a: DropAction)
    ensures
        a == recall_drop_action(old),
{
    if old == LENT {
        DropAction::Keep
    } else if old == IS_RECALL {
        DropAction::Free
    } else {
        DropAction::Invalid
    }
}

/// What dropping the `Agent` does, given the state it swapped for [`IS_RECALL`].
pub fn drop_agent(old: u8) -> (a: DropAction)
    ensures
        a == agent_drop_action(old),
{
    if old == LENT {
        DropAction::Keep
    } else if old == DROPPED {
        DropAction::Free
    } else {
        DropAction::Invalid
    }
}

/// The value is freed exactly once, by the handle dropped last, whatever the order of the
/// drops: a `Recall` alone frees it when dropped; lending turns its state into [`LENT`], where
/// a second lending adds nothing; from [`LENT`], the first of the two handles dropped keeps the
/// value and leaves the state that makes the second free it.
pub proof fn lemma_freed_once()
    ensures
        (IS_RECALL | IS_AGENT) == LENT,
        (LENT | IS_AGENT) == LENT,
        recall_drop_action(IS_RECALL) == DropAction::Free,
        recall_drop_action(LENT) == DropAction::Keep,
        agent_drop_action(DROPPED) == DropAction::Free,
        agent_drop_action(LENT) == DropAction::Keep,
{
    assert((IS_RECALL | IS_AGENT) == LENT) by (bit_vector);
    assert((LENT | IS_AGENT) == LENT) by (bit_vector);
}

} // verus!
