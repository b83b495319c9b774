//! The task entity mirrored from the persistence gateway.

use vstd::prelude::*;

verus! {

/// A tracked task. Its identity is the store-assigned `id`, which is
/// unique and never reused after deletion. `text` is non-empty by the
/// add-task validation rule; `created_at` is an epoch second and orders
/// the list newest first as the gateway returns it.
#[derive(Clone, Debug)]
pub struct Task {
    pub id: i64,
    pub text: String,
    pub completed: bool,
    pub created_at: i64,
}

} // verus!
