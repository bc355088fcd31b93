//! Whole runs of a listener: what a sequence of outcomes of outside work
//! makes it ask for, and the properties that every run has.

use vstd::prelude::*;

use crate::listener::{default_verdict, Action, Event, ListenerState, Phase};

verus! {

/// Feeds `events` to a listener in state `s`, one step each, as long as each
/// is the outcome the listener waits for; gives the final state and the
/// actions asked for along the way.
pub open spec fn run<Ctx, Msg, E>(s: ListenerState<Ctx>, events: Seq<Event<Ctx, Msg, E>>) -> (
    ListenerState<Ctx>,
    Seq<Action<Msg, E>>,
)
    decreases events.len(),
{
    if events.len() == 0 || !s.expects(events[0]) {
        (s, Seq::empty())
    } else {
        let (s1, action) = s.transition(events[0]);
        let (s2, rest) = run(s1, events.drop_first());
        (s2, seq![action] + rest)
    }
}

/// Whether every one of `events`, in turn, is the outcome that a listener
/// starting in state `s` waits for.
pub open spec fn follows<Ctx, Msg, E>(s: ListenerState<Ctx>, events: Seq<Event<Ctx, Msg, E>>) -> bool
    decreases events.len(),
{
    events.len() == 0 || (s.expects(events[0]) && follows(
        s.transition(events[0]).0,
        events.drop_first(),
    ))
}

/// The messages that the source yielded, in order.
pub open spec fn received<Ctx, Msg, E>(events: Seq<Event<Ctx, Msg, E>>) -> Seq<Msg>
    decreases events.len(),
{
    if events.len() == 0 {
        Seq::empty()
    } else {
        let rest = received(events.drop_first());
        match events[0] {
            Event::Next(Some(msg)) => seq![msg] + rest,
            _ => rest,
        }
    }
}

/// The errors that the message handler returned, in order.
pub open spec fn failures<Ctx, Msg, E>(events: Seq<Event<Ctx, Msg, E>>) -> Seq<E>
    decreases events.len(),
{
    if events.len() == 0 {
        Seq::empty()
    } else {
        let rest = failures(events.drop_first());
        match events[0] {
            Event::Handled(Err(err)) => seq![err] + rest,
            _ => rest,
        }
    }
}

/// The messages handed to the message handler, in order.
pub open spec fn handled<Msg, E>(actions: Seq<Action<Msg, E>>) -> Seq<Msg>
    decreases actions.len(),
{
    if actions.len() == 0 {
        Seq::empty()
    } else {
        let rest = handled(actions.drop_first());
        match actions[0] {
            Action::Handle(msg) => seq![msg] + rest,
            _ => rest,
        }
    }
}

/// The errors handed to the error handler, in order.
pub open spec fn reported<Msg, E>(actions: Seq<Action<Msg, E>>) -> Seq<E>
    decreases actions.len(),
{
    if actions.len() == 0 {
        Seq::empty()
    } else {
        let rest = reported(actions.drop_first());
        match actions[0] {
            Action::HandleError(err) => seq![err] + rest,
            _ => rest,
        }
    }
}

/// The context after `events`, starting from `ctx`: the last one that the
/// message handler handed back, or `ctx` if it never handed one back.
pub open spec fn last_context<Ctx, Msg, E>(ctx: Ctx, events: Seq<Event<Ctx, Msg, E>>) -> Ctx
    decreases events.len(),
{
    if events.len() == 0 {
        ctx
    } else {
        match events[0] {
            Event::Handled(Ok(Some(new_ctx))) => last_context(new_ctx, events.drop_first()),
            _ => last_context(ctx, events.drop_first()),
        }
    }
}

/// Whether `event` ends the listening: the source has ended, or the error
/// handler said to stop.
pub open spec fn ends_listening<Ctx, Msg, E>(event: Event<Ctx, Msg, E>) -> bool {
    match event {
        Event::Next(None) => true,
        Event::Verdict(false) => true,
        _ => false,
    }
}

/// Each message that the source yields goes to the message handler exactly
/// once, in the order the source yielded them.
pub proof fn lemma_every_message_handled_once_in_order<Ctx, Msg, E>(
    s: ListenerState<Ctx>,
    events: Seq<Event<Ctx, Msg, E>>,
)
    requires
        follows(s, events),
    ensures
        handled(run(s, events).1) == received(events),
    decreases events.len(),
{
    if events.len() > 0 {
        let (s1, action) = s.transition(events[0]);
        let rest = run(s1, events.drop_first()).1;
        lemma_every_message_handled_once_in_order(s1, events.drop_first());
        assert((seq![action] + rest).drop_first() =~= rest);
        assert((seq![action] + rest)[0] == action);
    }
}

/// Each error that the message handler returns goes to the error handler
/// exactly once, in order.
pub proof fn lemma_every_error_reported_once_in_order<Ctx, Msg, E>(
    s: ListenerState<Ctx>,
    events: Seq<Event<Ctx, Msg, E>>,
)
    requires
        follows(s, events),
    ensures
        reported(run(s, events).1) == failures(events),
    decreases events.len(),
{
    if events.len() > 0 {
        let (s1, action) = s.transition(events[0]);
        let rest = run(s1, events.drop_first()).1;
        lemma_every_error_reported_once_in_order(s1, events.drop_first());
        assert((seq![action] + rest).drop_first() =~= rest);
        assert((seq![action] + rest)[0] == action);
    }
}

/// The handlers run with the context that the message handler last handed
/// back (`Ok(Some(ctx))`), or with the initial one until it hands one back;
/// `Ok(None)`, errors and verdicts leave the context as it is.
pub proof fn lemma_context_is_last_handed_back<Ctx, Msg, E>(
    s: ListenerState<Ctx>,
    events: Seq<Event<Ctx, Msg, E>>,
)
    requires
        follows(s, events),
    ensures
        run(s, events).0.context == last_context(s.context, events),
    decreases events.len(),
{
    if events.len() > 0 {
        let s1 = s.transition(events[0]).0;
        lemma_context_is_last_handed_back(s1, events.drop_first());
    }
}

/// Every outcome asks for exactly one action. A listener that has not
/// stopped stops exactly when the source ends or the error handler says to
/// stop, and that is its last action: nothing is asked for after `Stop`.
pub proof fn lemma_stops_only_at_the_end<Ctx, Msg, E>(
    s: ListenerState<Ctx>,
    events: Seq<Event<Ctx, Msg, E>>,
)
    requires
        follows(s, events),
        s.phase != Phase::Stopped,
    ensures
        run(s, events).1.len() == events.len(),
        (run(s, events).0.phase == Phase::Stopped) <==> (events.len() > 0 && ends_listening(
            events.last(),
        )),
        forall|i: int|
            0 <= i < events.len() ==> ((run(s, events).1[i] is Stop) <==> (i == events.len() - 1
                && ends_listening(events[i]))),
    decreases events.len(),
{
    if events.len() > 0 {
        let (s1, action) = s.transition(events[0]);
        let tail = events.drop_first();
        let rest = run(s1, tail).1;
        let actions = run(s, events).1;
        assert(actions == seq![action] + rest);
        if s1.phase == Phase::Stopped {
            // Nothing is waited for once stopped.
            assert(tail.len() == 0) by {
                reveal_with_fuel(follows, 2);
            }
        } else {
            lemma_stops_only_at_the_end(s1, tail);
            assert forall|i: int| 0 <= i < events.len() implies ((actions[i] is Stop) <==> (i
                == events.len() - 1 && ends_listening(events[i]))) by {
                if i > 0 {
                    assert(actions[i] == rest[i - 1]);
                    assert(events[i] == tail[i - 1]);
                }
            }
            if tail.len() > 0 {
                assert(events.last() == tail.last());
            }
        }
    }
}

/// A stopped listener waits for nothing: no outcome is taken in any more.
pub proof fn lemma_stopped_is_final<Ctx, Msg, E>(s: ListenerState<Ctx>, event: Event<Ctx, Msg, E>)
    requires
        s.phase == Phase::Stopped,
    ensures
        !s.expects(event),
        run(s, seq![event]).0 == s,
        run(s, seq![event]).1.len() == 0,
{
}

/// With the default error handler, a listener stops at the first error that
/// the message handler returns, after handing that error to the error
/// handler, and keeps its context.
pub proof fn lemma_default_handler_stops_at_first_error<Ctx, Msg, E>(
    s: ListenerState<Ctx>,
    err: E,
)
    requires
        s.phase == Phase::AwaitingOutcome,
    ensures
        ({
            let events = seq![
                Event::<Ctx, Msg, E>::Handled(Err(err)),
                Event::<Ctx, Msg, E>::Verdict(default_verdict()),
            ];
            &&& follows(s, events)
            &&& run(s, events).0 == ListenerState { context: s.context, phase: Phase::Stopped }
            &&& run(s, events).1 == seq![Action::<Msg, E>::HandleError(err), Action::<Msg, E>::Stop]
        }),
{
    let events = seq![
        Event::<Ctx, Msg, E>::Handled(Err(err)),
        Event::<Ctx, Msg, E>::Verdict(default_verdict()),
    ];
    reveal_with_fuel(run, 3);
    reveal_with_fuel(follows, 3);
    assert(events.drop_first() =~= seq![Event::<Ctx, Msg, E>::Verdict(default_verdict())]);
    assert(events.drop_first().drop_first() =~= Seq::<Event<Ctx, Msg, E>>::empty());
    assert(run(s, events).1 =~= seq![Action::<Msg, E>::HandleError(err), Action::<Msg, E>::Stop]);
}

/// A call of one of the handlers, with the context it is run with.
pub enum Call<Ctx, Msg, E> {
    /// The message handler, on this context and message.
    Handler(Ctx, Msg),
    /// The error handler, on this context and error.
    ErrorHandler(Ctx, E),
}

/// The handler calls that a listener in state `s` makes while it takes in
/// `events` (as far as [`run`] goes), each with the context it runs with.
pub open spec fn calls<Ctx, Msg, E>(s: ListenerState<Ctx>, events: Seq<Event<Ctx, Msg, E>>) -> Seq<
    Call<Ctx, Msg, E>,
>
    decreases events.len(),
{
    if events.len() == 0 || !s.expects(events[0]) {
        Seq::empty()
    } else {
        let (s1, action) = s.transition(events[0]);
        let rest = calls(s1, events.drop_first());
        match action {
            Action::Handle(msg) => seq![Call::Handler(s1.context, msg)] + rest,
            Action::HandleError(err) => seq![Call::ErrorHandler(s1.context, err)] + rest,
            _ => rest,
        }
    }
}

/// The outcomes that a listener, started on its source, takes in when the
/// source yields `msgs` and then ends (if `ended`) or yields nothing more,
/// the message handler returns `results[i]` on the `i`-th message, and the
/// error handler, when it is run on that result, returns `verdicts[i]`.
pub open spec fn script<Ctx, Msg, E>(
    msgs: Seq<Msg>,
    results: Seq<Result<Option<Ctx>, E>>,
    verdicts: Seq<bool>,
    ended: bool,
) -> Seq<Event<Ctx, Msg, E>>
    decreases msgs.len(),
{
    if msgs.len() == 0 {
        if ended {
            seq![Event::Next(None)]
        } else {
            Seq::empty()
        }
    } else {
        let rest = script(msgs.drop_first(), results.drop_first(), verdicts.drop_first(), ended);
        let head = seq![Event::Next(Some(msgs[0])), Event::Handled(results[0])];
        match results[0] {
            Err(_) => if verdicts[0] {
                head + seq![Event::Verdict(true)] + rest
            } else {
                head + seq![Event::Verdict(false)]
            },
            _ => head + rest,
        }
    }
}

/// The handler calls that listening prescribes, starting with context `ctx`,
/// in the world that [`script`] describes, and whether listening stops:
/// each message in turn goes to the message handler with the current
/// context; `Ok(None)` keeps the context and `Ok(Some(c))` makes `c` the
/// context for the following messages; an error goes to the error handler
/// with the current context, and its `false` stops listening; the end of the
/// source stops listening.
pub open spec fn prescribed<Ctx, Msg, E>(
    ctx: Ctx,
    msgs: Seq<Msg>,
    results: Seq<Result<Option<Ctx>, E>>,
    verdicts: Seq<bool>,
    ended: bool,
) -> (Seq<Call<Ctx, Msg, E>>, bool)
    decreases msgs.len(),
{
    if msgs.len() == 0 {
        (Seq::empty(), ended)
    } else {
        let (ms, rs, vs) = (msgs.drop_first(), results.drop_first(), verdicts.drop_first());
        let handler = Call::Handler(ctx, msgs[0]);
        match results[0] {
            Ok(None) => {
                let (cs, stopped) = prescribed(ctx, ms, rs, vs, ended);
                (seq![handler] + cs, stopped)
            },
            Ok(Some(new_ctx)) => {
                let (cs, stopped) = prescribed(new_ctx, ms, rs, vs, ended);
                (seq![handler] + cs, stopped)
            },
            Err(err) => if verdicts[0] {
                let (cs, stopped) = prescribed(ctx, ms, rs, vs, ended);
                (seq![handler, Call::ErrorHandler(ctx, err)] + cs, stopped)
            } else {
                (seq![handler, Call::ErrorHandler(ctx, err)], true)
            },
        }
    }
}

/// Taking in `first` and then `second` is taking in `first` and then, from
/// where that left the listener, `second`.
pub proof fn lemma_run_append<Ctx, Msg, E>(
    s: ListenerState<Ctx>,
    first: Seq<Event<Ctx, Msg, E>>,
    second: Seq<Event<Ctx, Msg, E>>,
)
    requires
        follows(s, first),
    ensures
        follows(s, first + second) == follows(run(s, first).0, second),
        run(s, first + second).0 == run(run(s, first).0, second).0,
        run(s, first + second).1 == run(s, first).1 + run(run(s, first).0, second).1,
        calls(s, first + second) == calls(s, first) + calls(run(s, first).0, second),
    decreases first.len(),
{
    if first.len() == 0 {
        assert(first + second =~= second);
    } else {
        let (s1, action) = s.transition(first[0]);
        let tail = first.drop_first();
        assert((first + second)[0] == first[0]);
        assert((first + second).drop_first() =~= tail + second);
        lemma_run_append(s1, tail, second);
        let mid = run(s1, tail).0;
        assert(seq![action] + (run(s1, tail).1 + run(mid, second).1) =~= (seq![action] + run(
            s1,
            tail,
        ).1) + run(mid, second).1);
        match action {
            Action::Handle(msg) => {
                let c = seq![Call::<Ctx, Msg, E>::Handler(s1.context, msg)];
                assert(c + (calls(s1, tail) + calls(mid, second)) =~= (c + calls(s1, tail))
                    + calls(mid, second));
            },
            Action::HandleError(err) => {
                let c = seq![Call::<Ctx, Msg, E>::ErrorHandler(s1.context, err)];
                assert(c + (calls(s1, tail) + calls(mid, second)) =~= (c + calls(s1, tail))
                    + calls(mid, second));
            },
            _ => {},
        }
    }
}

/// A listener started on context `ctx` calls its handlers exactly as
/// listening prescribes ([`prescribed`]): in order, each message once with
/// the context then current, each error once with that context, for as long
/// as the source yields messages; and it stops exactly when that prescribes
/// a stop.
pub proof fn lemma_callbacks_follow_the_prescribed_run<Ctx, Msg, E>(
    ctx: Ctx,
    msgs: Seq<Msg>,
    results: Seq<Result<Option<Ctx>, E>>,
    verdicts: Seq<bool>,
    ended: bool,
)
    requires
        results.len() == msgs.len(),
        verdicts.len() == msgs.len(),
    ensures
        ({
            let s = ListenerState::<Ctx>::started(ctx);
            let events = script(msgs, results, verdicts, ended);
            &&& follows(s, events)
            &&& calls(s, events) == prescribed(ctx, msgs, results, verdicts, ended).0
            &&& (run(s, events).0.phase == Phase::Stopped) == prescribed(
                ctx,
                msgs,
                results,
                verdicts,
                ended,
            ).1
        }),
    decreases msgs.len(),
{
    reveal_with_fuel(run, 4);
    reveal_with_fuel(follows, 4);
    reveal_with_fuel(calls, 4);
    let s = ListenerState::<Ctx>::started(ctx);
    if msgs.len() == 0 {
        if ended {
            let events = seq![Event::<Ctx, Msg, E>::Next(None)];
            assert(events.drop_first() =~= Seq::<Event<Ctx, Msg, E>>::empty());
        }
    } else {
        let (ms, rs, vs) = (msgs.drop_first(), results.drop_first(), verdicts.drop_first());
        let rest = script(ms, rs, vs, ended);
        let head = seq![Event::<Ctx, Msg, E>::Next(Some(msgs[0])), Event::Handled(results[0])];
        assert(head.drop_first() =~= seq![Event::<Ctx, Msg, E>::Handled(results[0])]);
        assert(head.drop_first().drop_first() =~= Seq::<Event<Ctx, Msg, E>>::empty());
        let handler = Call::<Ctx, Msg, E>::Handler(ctx, msgs[0]);
        match results[0] {
            Ok(None) => {
                lemma_run_append(s, head, rest);
                lemma_callbacks_follow_the_prescribed_run(ctx, ms, rs, vs, ended);
                assert(calls(s, head) =~= seq![handler]);
            },
            Ok(Some(new_ctx)) => {
                lemma_run_append(s, head, rest);
                lemma_callbacks_follow_the_prescribed_run(new_ctx, ms, rs, vs, ended);
                assert(calls(s, head) =~= seq![handler]);
                assert(run(s, head).0 == ListenerState::<Ctx>::started(new_ctx));
            },
            Err(err) => {
                let verdict = verdicts[0];
                let prefix = head + seq![Event::<Ctx, Msg, E>::Verdict(verdict)];
                assert(prefix.drop_first() =~= seq![
                    Event::<Ctx, Msg, E>::Handled(results[0]),
                    Event::Verdict(verdict),
                ]);
                assert(prefix.drop_first().drop_first() =~= seq![
                    Event::<Ctx, Msg, E>::Verdict(verdict),
                ]);
                assert(prefix.drop_first().drop_first().drop_first() =~= Seq::<
                    Event<Ctx, Msg, E>,
                >::empty());
                let error_call = Call::<Ctx, Msg, E>::ErrorHandler(ctx, err);
                assert(calls(s, prefix) =~= seq![handler, error_call]);
                if verdict {
                    lemma_run_append(s, prefix, rest);
                    lemma_callbacks_follow_the_prescribed_run(ctx, ms, rs, vs, ended);
                }
            },
        }
    }
}

/// Each phase waits for one kind of outcome and takes in no other: a message
/// (or the end of the source) only while the listener waits for one, a
/// handler's result only while the handler runs, a verdict only while the
/// error handler runs, and nothing once stopped.
pub proof fn lemma_only_the_awaited_outcome_is_taken<Ctx, Msg, E>(
    s: ListenerState<Ctx>,
    event: Event<Ctx, Msg, E>,
)
    ensures
        (event is Next && s.expects(event)) ==> s.phase == Phase::AwaitingMessage,
        (event is Handled && s.expects(event)) ==> s.phase == Phase::AwaitingOutcome,
        (event is Verdict && s.expects(event)) ==> s.phase == Phase::AwaitingVerdict,
        s.phase == Phase::AwaitingMessage ==> (s.expects(event) <==> event is Next),
        s.phase == Phase::AwaitingOutcome ==> (s.expects(event) <==> event is Handled),
        s.phase == Phase::AwaitingVerdict ==> (s.expects(event) <==> event is Verdict),
        s.phase == Phase::Stopped ==> !s.expects(event),
{
}

/// In every run, outcomes come in the order in which listening asks for
/// them: a message is followed by the handler's result; a handler's error by
/// the error handler's verdict, so no new message is taken in while that
/// verdict is pending; a handler's success and a `true` verdict by the next
/// poll of the source; and the end of the source or a `false` verdict by
/// nothing.
pub proof fn lemma_outcomes_come_in_order<Ctx, Msg, E>(
    s: ListenerState<Ctx>,
    events: Seq<Event<Ctx, Msg, E>>,
)
    requires
        follows(s, events),
    ensures
        forall|i: int|
            #![trigger events[i]]
            0 <= i < events.len() - 1 ==> {
                &&& (events[i] matches Event::Next(Some(_))) ==> events[i + 1] is Handled
                &&& (events[i] matches Event::Handled(Err(_))) ==> events[i + 1] is Verdict
                &&& (events[i] matches Event::Handled(Ok(_))) ==> events[i + 1] is Next
                &&& (events[i] matches Event::Verdict(true)) ==> events[i + 1] is Next
                &&& !(events[i] matches Event::Next(None))
                &&& !(events[i] matches Event::Verdict(false))
            },
    decreases events.len(),
{
    if events.len() > 1 {
        let s1 = s.transition(events[0]).0;
        let tail = events.drop_first();
        assert(follows(s1, tail));
        assert(s1.expects(tail[0])) by {
            reveal_with_fuel(follows, 2);
        }
        assert(events[1] == tail[0]);
        lemma_outcomes_come_in_order(s1, tail);
        assert forall|i: int| #![trigger events[i]] 1 <= i < events.len() - 1 implies {
            &&& (events[i] matches Event::Next(Some(_))) ==> events[i + 1] is Handled
            &&& (events[i] matches Event::Handled(Err(_))) ==> events[i + 1] is Verdict
            &&& (events[i] matches Event::Handled(Ok(_))) ==> events[i + 1] is Next
            &&& (events[i] matches Event::Verdict(true)) ==> events[i + 1] is Next
            &&& !(events[i] matches Event::Next(None))
            &&& !(events[i] matches Event::Verdict(false))
        } by {
            assert(events[i] == tail[i - 1]);
            assert(events[i + 1] == tail[i]);
            assert(tail[(i - 1) + 1] == tail[i]);
        }
    }
}

/// A run stops at the first outcome that the listener does not wait for:
/// it takes in nothing, asks for nothing and leaves the listener as it was.
pub proof fn lemma_run_halts_at_an_outcome_not_awaited<Ctx, Msg, E>(
    s: ListenerState<Ctx>,
    events: Seq<Event<Ctx, Msg, E>>,
)
    requires
        events.len() > 0,
        !s.expects(events[0]),
    ensures
        run(s, events) == (s, Seq::<Action<Msg, E>>::empty()),
{
}

/// A run takes in a prefix of its outcomes, each in turn as the listener
/// waits for it, one action for each and none skipped; it ends where the
/// outcomes end or at the first one the listener does not wait for.
pub proof fn lemma_run_takes_a_prefix<Ctx, Msg, E>(
    s: ListenerState<Ctx>,
    events: Seq<Event<Ctx, Msg, E>>,
)
    ensures
        ({
            let k = run(s, events).1.len() as int;
            &&& k <= events.len()
            &&& follows(s, events.take(k))
            &&& run(s, events.take(k)) == run(s, events)
            &&& k < events.len() ==> !run(s, events).0.expects(events[k])
        }),
    decreases events.len(),
{
    if events.len() == 0 || !s.expects(events[0]) {
        assert(events.take(0) =~= Seq::<Event<Ctx, Msg, E>>::empty());
    } else {
        let (s1, action) = s.transition(events[0]);
        let tail = events.drop_first();
        lemma_run_takes_a_prefix(s1, tail);
        let j = run(s1, tail).1.len() as int;
        let k = j + 1;
        assert(run(s, events).1.len() == k);
        let prefix = events.take(k);
        assert(prefix[0] == events[0]);
        assert(prefix.drop_first() =~= tail.take(j));
        if k < events.len() {
            assert(events[k] == tail[j]);
        }
    }
}

} // verus!
