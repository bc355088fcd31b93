//! Exclusive ownership of a listener's context.

use vstd::prelude::*;

verus! {

/// Wraps the context of a listener. Listeners process events one at a time
/// and never share their context, so the holder hands out a mutable reference
/// to it; the borrow checker guarantees that no other reference is alive.
pub struct ContextHolder<Ctx> {
    ctx: Ctx,
}

impl<Ctx> ContextHolder<Ctx> {
    /// The context currently held.
    pub closed spec fn context(&self) -> Ctx {
        self.ctx
    }

    /// Takes ownership of `ctx`.
    pub fn new(ctx: Ctx) -> (holder: Self)
        ensures
            holder.context() == ctx,
    {
        ContextHolder { ctx }
    }

    /// Mutable access to the held context: the reference starts at the
    /// current context, and whatever is written through it is what the
    /// holder holds afterwards.
    pub fn get_mut(&mut self) -> (ctx: &mut Ctx)
        ensures
            *ctx == old(self).context(),
            final(self).context() == *final(ctx),
    {
        &mut self.ctx
    }
}

} // verus!
