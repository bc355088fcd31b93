//! Event listeners that process a stream of messages one at a time against a
//! context that each handler invocation may replace.
//!
//! The decisions a listener takes between two awaited steps live in
//! [`listener`]; [`trace`] states what holds of whole runs of them;
//! [`context_holder`] gives exclusive access to a listener's context.

use vstd::prelude::*;

pub mod context_holder;
pub mod listener;
pub mod trace;

verus! {

/// The type of the empty context (unit).
pub type EmptyCtx = ();

/// A predefined context for listeners that do not need any state.
pub fn empty_ctx() -> (ctx: EmptyCtx)
    ensures
        ctx == (),
{
}

} // verus!
