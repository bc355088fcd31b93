//! The decisions of a listener.
//!
//! A listener pulls messages from a source one at a time, runs a handler on
//! each with its current context, adopts the context a handler hands back, and
//! on a handler error asks an error handler whether to keep going. Polling the
//! source and running the handlers are awaited outside; between two of them
//! the listener takes a [`Listener::step`], which turns what just came back
//! (an [`Event`]) into what to do next (an [`Action`]).

use vstd::prelude::*;

use crate::trace::run;

verus! {

/// Which outcome of outside work a listener is waiting for.
#[derive(Debug, Clone, Copy, PartialEq, Eq, Structural)]
pub enum Phase {
    /// The source was polled; the next item (or its end) is awaited.
    AwaitingMessage,
    /// The message handler runs; its result is awaited.
    AwaitingOutcome,
    /// The error handler runs; its verdict is awaited.
    AwaitingVerdict,
    /// The listener has finished; nothing more is awaited.
    Stopped,
}

/// What outside work handed back to the listener.
pub enum Event<Ctx, Msg, E> {
    /// What polling the source yielded: a message, or `None` once the source
    /// has ended.
    Next(Option<Msg>),
    /// What the message handler returned: `Ok(None)` to keep the context,
    /// `Ok(Some(ctx))` to use `ctx` from now on, or an error.
    Handled(Result<Option<Ctx>, E>),
    /// What the error handler returned: whether to keep listening.
    Verdict(bool),
}

/// What the listener asks to be done next.
#[derive(Debug, PartialEq, Eq)]
pub enum Action<Msg, E> {
    /// Poll the source for its next item.
    Poll,
    /// Run the message handler on the current context and this message.
    Handle(Msg),
    /// Run the error handler on the current context and this error.
    HandleError(E),
    /// Stop listening.
    Stop,
}

/// A listener, seen as its current context and the outcome it waits for.
pub struct ListenerState<Ctx> {
    /// The context that the handlers are run with.
    pub context: Ctx,
    /// The outcome the listener waits for.
    pub phase: Phase,
}

/// The state a listener keeps between two steps; its view is a
/// [`ListenerState`].
pub struct Listener<Ctx> {
    ctx: Ctx,
    phase: Phase,
}

impl<Ctx> View for Listener<Ctx> {
    type V = ListenerState<Ctx>;

    closed spec fn view(&self) -> ListenerState<Ctx> {
        ListenerState { context: self.ctx, phase: self.phase }
    }
}

/// The verdict of the default error handler: stop at the first error.
pub open spec fn default_verdict() -> bool {
    false
}

/// The verdict that the default error handler returns, whatever the error:
/// a listener without an error handler of its own stops at the first error.
pub fn default_error_verdict() -> (keep_listening: bool)
    ensures
        keep_listening == default_verdict(),
{
    false
}

impl<Ctx> ListenerState<Ctx> {
    /// A listener that has just polled its source, with context `ctx`.
    pub open spec fn started(ctx: Ctx) -> Self {
        ListenerState { context: ctx, phase: Phase::AwaitingMessage }
    }

    /// Whether `event` is the outcome the listener waits for.
    pub open spec fn expects<Msg, E>(self, event: Event<Ctx, Msg, E>) -> bool {
        match event {
            Event::Next(_) => self.phase == Phase::AwaitingMessage,
            Event::Handled(_) => self.phase == Phase::AwaitingOutcome,
            Event::Verdict(_) => self.phase == Phase::AwaitingVerdict,
        }
    }

    /// The listener after `event`, and what it asks for next.
    ///
    /// A message goes to the handler; the end of the source stops the
    /// listener. A handler's `Ok(None)` keeps the context and `Ok(Some(c))`
    /// makes `c` the context; either way the source is polled again. A
    /// handler's error goes to the error handler, whose `true` resumes
    /// polling and whose `false` stops the listener.
    pub open spec fn transition<Msg, E>(self, event: Event<Ctx, Msg, E>) -> (Self, Action<Msg, E>) {
        let ctx = self.context;
        match event {
            Event::Next(Some(msg)) => (
                ListenerState { context: ctx, phase: Phase::AwaitingOutcome },
                Action::Handle(msg),
            ),
            Event::Next(None) => (ListenerState { context: ctx, phase: Phase::Stopped }, Action::Stop),
            Event::Handled(Ok(None)) => (
                ListenerState { context: ctx, phase: Phase::AwaitingMessage },
                Action::Poll,
            ),
            Event::Handled(Ok(Some(new_ctx))) => (
                ListenerState { context: new_ctx, phase: Phase::AwaitingMessage },
                Action::Poll,
            ),
            Event::Handled(Err(err)) => (
                ListenerState { context: ctx, phase: Phase::AwaitingVerdict },
                Action::HandleError(err),
            ),
            Event::Verdict(true) => (
                ListenerState { context: ctx, phase: Phase::AwaitingMessage },
                Action::Poll,
            ),
            Event::Verdict(false) => (ListenerState { context: ctx, phase: Phase::Stopped }, Action::Stop),
        }
    }
}

impl<Ctx> Listener<Ctx> {
    /// Starts a listener on the context that the context factory made. The
    /// first thing it asks for is a message from the source.
    pub fn start<Msg, E>(ctx: Ctx) -> (res: (Self, Action<Msg, E>))
        ensures
            res.0@ == ListenerState::started(ctx),
            res.1 == Action::<Msg, E>::Poll,
    {
        (Listener { ctx, phase: Phase::AwaitingMessage }, Action::Poll)
    }

    /// The context that the handlers are to be run with.
    pub fn context(&self) -> (ctx: &Ctx)
        ensures
            *ctx == self@.context,
    {
        &self.ctx
    }

    /// The outcome the listener waits for.
    pub fn phase(&self) -> (phase: Phase)
        ensures
            phase == self@.phase,
    {
        self.phase
    }

    /// Whether the listener has finished.
    pub fn is_stopped(&self) -> (stopped: bool)
        ensures
            stopped == (self@.phase == Phase::Stopped),
    {
        match self.phase {
            Phase::Stopped => true,
            _ => false,
        }
    }

    /// Whether `event` is the outcome the listener waits for, so that
    /// [`Listener::step`] may be taken on it.
    pub fn accepts<Msg, E>(&self, event: &Event<Ctx, Msg, E>) -> (ok: bool)
        ensures
            ok == self@.expects(*event),
    {
        match (event, self.phase) {
            (Event::Next(_), Phase::AwaitingMessage) => true,
            (Event::Handled(_), Phase::AwaitingOutcome) => true,
            (Event::Verdict(_), Phase::AwaitingVerdict) => true,
            _ => false,
        }
    }

    /// Takes in the outcome of the outside work that was asked for and
    /// returns what to do next (see [`ListenerState::transition`]).
    pub fn step<Msg, E>(&mut self, event: Event<Ctx, Msg, E>) -> (action: Action<Msg, E>)
        requires
            old(self)@.expects(event),
        ensures
            (final(self)@, action) == old(self)@.transition(event),
    {
        match event {
            Event::Next(Some(msg)) => {
                self.phase = Phase::AwaitingOutcome;
                Action::Handle(msg)
            },
            Event::Next(None) => {
                self.phase = Phase::Stopped;
                Action::Stop
            },
            Event::Handled(Ok(None)) => {
                self.phase = Phase::AwaitingMessage;
                Action::Poll
            },
            Event::Handled(Ok(Some(new_ctx))) => {
                self.ctx = new_ctx;
                self.phase = Phase::AwaitingMessage;
                Action::Poll
            },
            Event::Handled(Err(err)) => {
                self.phase = Phase::AwaitingVerdict;
                Action::HandleError(err)
            },
            Event::Verdict(keep_listening) => {
                if keep_listening {
                    self.phase = Phase::AwaitingMessage;
                    Action::Poll
                } else {
                    self.phase = Phase::Stopped;
                    Action::Stop
                }
            },
        }
    }

    /// Takes the outcomes in `events` in order, one step each, as long as
    /// each is the outcome the listener waits for, and returns the actions
    /// asked for along the way: a whole run (see [`run`]).
    pub fn step_all<Msg, E>(&mut self, events: Vec<Event<Ctx, Msg, E>>) -> (actions: Vec<
        Action<Msg, E>,
    >)
        ensures
            (final(self)@, actions@) == run(old(self)@, events@),
    {
        let ghost all = events@;
        let mut remaining = events;
        let mut actions: Vec<Action<Msg, E>> = Vec::new();
        let mut blocked = false;
        while !blocked && remaining.len() > 0
            invariant
                run(old(self)@, all) == (
                    run(self@, remaining@).0,
                    actions@ + run(self@, remaining@).1,
                ),
                blocked ==> remaining@.len() > 0 && !self@.expects(remaining@[0]),
            decreases remaining.len() + if blocked { 0int } else { 1int },
        {
            if !self.accepts(&remaining[0]) {
                blocked = true;
            } else {
                let ghost before = remaining@;
                let ghost done = actions@;
                let event = remaining.remove(0);
                assert(remaining@ =~= before.drop_first());
                let action = self.step(event);
                actions.push(action);
                assert(done + (seq![action] + run(self@, remaining@).1) =~= actions@ + run(
                    self@,
                    remaining@,
                ).1);
            }
        }
        assert(actions@ + Seq::<Action<Msg, E>>::empty() =~= actions@);
        actions
    }
}

} // verus!
