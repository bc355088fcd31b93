use message_worker::context_holder::ContextHolder;
use message_worker::listener::{default_error_verdict, Action, Event, Listener, Phase};
use message_worker::{empty_ctx, EmptyCtx};

type Ev<Ctx, M> = Event<Ctx, M, String>;

#[test]
fn starting_asks_for_a_message_with_the_factory_context() {
    let (listener, action) = Listener::<u32>::start::<(), String>(1337);
    assert_eq!(action, Action::Poll);
    assert_eq!(*listener.context(), 1337);
    assert_eq!(listener.phase(), Phase::AwaitingMessage);
    assert!(!listener.is_stopped());
}

#[test]
fn handler_reads_the_context() {
    let (mut listener, _) = Listener::<u32>::start::<(), String>(1337);
    let action = listener.step(Ev::<u32, ()>::Next(Some(())));
    assert_eq!(action, Action::Handle(()));
    // The handler is run with the context the listener holds.
    assert_eq!(*listener.context(), 1337);
    assert_eq!(listener.phase(), Phase::AwaitingOutcome);
}

#[test]
fn handler_reads_the_event() {
    let (mut listener, _) = Listener::<()>::start::<u32, String>(());
    let action = listener.step(Ev::<(), u32>::Next(Some(1337)));
    assert_eq!(action, Action::Handle(1337));
}

#[test]
fn handed_back_context_replaces_the_old_one() {
    let (mut listener, _) = Listener::<String>::start::<(), String>("bar".to_string());
    assert_eq!(listener.step(Ev::<String, ()>::Next(Some(()))), Action::Handle(()));
    assert_eq!(listener.context(), "bar");
    let action = listener.step(Ev::<String, ()>::Handled(Ok(Some("foo".to_string()))));
    assert_eq!(action, Action::Poll);
    assert_eq!(listener.step(Ev::<String, ()>::Next(Some(()))), Action::Handle(()));
    assert_eq!(listener.context(), "foo");
}

#[test]
fn no_context_handed_back_keeps_the_old_one() {
    let (mut listener, _) = Listener::<String>::start::<(), String>("bar".to_string());
    listener.step(Ev::<String, ()>::Next(Some(())));
    let action = listener.step(Ev::<String, ()>::Handled(Ok(None)));
    assert_eq!(action, Action::Poll);
    assert_eq!(listener.context(), "bar");
    assert_eq!(listener.phase(), Phase::AwaitingMessage);
}

#[test]
fn handler_error_goes_to_the_error_handler_which_may_stop() {
    let (mut listener, _) = Listener::<()>::start::<(), String>(());
    listener.step(Ev::<(), ()>::Next(Some(())));
    let action = listener.step(Ev::<(), ()>::Handled(Err("rip".to_string())));
    assert_eq!(action, Action::HandleError("rip".to_string()));
    assert_eq!(listener.phase(), Phase::AwaitingVerdict);
    let action = listener.step(Ev::<(), ()>::Verdict(false));
    assert_eq!(action, Action::Stop);
    assert!(listener.is_stopped());
}

#[test]
fn error_handler_returning_true_keeps_listening() {
    let (mut listener, _) = Listener::<u8>::start::<&str, String>(7);
    let mut reported: Vec<String> = Vec::new();
    for msg in ["rip", "oh no"] {
        assert_eq!(listener.step(Ev::<u8, &str>::Next(Some(msg))), Action::Handle(msg));
        match listener.step(Ev::<u8, &str>::Handled(Err(msg.to_string()))) {
            Action::HandleError(err) => reported.push(err),
            other => panic!("unexpected action {:?}", other),
        }
        assert_eq!(listener.step(Ev::<u8, &str>::Verdict(true)), Action::Poll);
    }
    assert_eq!(reported, vec!["rip".to_string(), "oh no".to_string()]);
    assert_eq!(*listener.context(), 7);
    assert!(!listener.is_stopped());
}

#[test]
fn default_error_handler_stops_at_the_first_error() {
    assert!(!default_error_verdict());
    let (mut listener, _) = Listener::<u8>::start::<u8, String>(3);
    listener.step(Ev::<u8, u8>::Next(Some(1)));
    listener.step(Ev::<u8, u8>::Handled(Err("rip".to_string())));
    let action = listener.step(Ev::<u8, u8>::Verdict(default_error_verdict()));
    assert_eq!(action, Action::Stop);
    assert!(listener.is_stopped());
    assert_eq!(*listener.context(), 3);
}

#[test]
fn end_of_the_source_stops_the_listener() {
    let (mut listener, _) = Listener::<u8>::start::<u8, String>(0);
    let action = listener.step(Ev::<u8, u8>::Next(None));
    assert_eq!(action, Action::Stop);
    assert_eq!(listener.phase(), Phase::Stopped);
}

#[test]
fn only_the_awaited_outcome_is_accepted() {
    let (mut listener, _) = Listener::<u8>::start::<u8, String>(0);
    assert!(listener.accepts(&Ev::<u8, u8>::Next(Some(1))));
    assert!(!listener.accepts(&Ev::<u8, u8>::Handled(Ok(None))));
    assert!(!listener.accepts(&Ev::<u8, u8>::Verdict(true)));
    listener.step(Ev::<u8, u8>::Next(Some(1)));
    assert!(listener.accepts(&Ev::<u8, u8>::Handled(Ok(None))));
    assert!(!listener.accepts(&Ev::<u8, u8>::Next(None)));
    listener.step(Ev::<u8, u8>::Handled(Err("x".to_string())));
    assert!(listener.accepts(&Ev::<u8, u8>::Verdict(false)));
    assert!(!listener.accepts(&Ev::<u8, u8>::Handled(Ok(None))));
    listener.step(Ev::<u8, u8>::Verdict(false));
    assert!(!listener.accepts(&Ev::<u8, u8>::Next(Some(2))));
    assert!(!listener.accepts(&Ev::<u8, u8>::Handled(Ok(None))));
    assert!(!listener.accepts(&Ev::<u8, u8>::Verdict(true)));
}

#[test]
fn messages_are_handled_in_order_with_the_latest_context() {
    let (mut listener, _) = Listener::<u32>::start::<u32, String>(0);
    let mut seen: Vec<(u32, u32)> = Vec::new();
    for msg in [42u32, 0xff6900, 1337] {
        match listener.step(Ev::<u32, u32>::Next(Some(msg))) {
            Action::Handle(m) => seen.push((*listener.context(), m)),
            other => panic!("unexpected action {:?}", other),
        }
        listener.step(Ev::<u32, u32>::Handled(Ok(Some(msg * 2))));
    }
    assert_eq!(listener.step(Ev::<u32, u32>::Next(None)), Action::Stop);
    assert_eq!(seen, vec![(0, 42), (84, 0xff6900), (0x1fed200, 1337)]);
    assert_eq!(*listener.context(), 2674);
}

#[test]
fn context_holder_gives_mutable_access() {
    let mut holder = ContextHolder::new("bar".to_string());
    assert_eq!(holder.get_mut(), "bar");
    *holder.get_mut() = "foo".to_string();
    assert_eq!(holder.get_mut(), "foo");
}

#[test]
fn empty_context_is_unit() {
    let ctx: EmptyCtx = empty_ctx();
    assert_eq!(ctx, ());
}

#[test]
fn a_whole_run_of_outcomes_is_replayed_in_order() {
    let (mut listener, _) = Listener::<String>::start::<u32, String>("bar".to_string());
    let events: Vec<Ev<String, u32>> = vec![
        Ev::Next(Some(1)),
        Ev::Handled(Ok(Some("foo".to_string()))),
        Ev::Next(Some(2)),
        Ev::Handled(Err("rip".to_string())),
        Ev::Verdict(true),
        Ev::Next(Some(3)),
        Ev::Handled(Err("oh no".to_string())),
        Ev::Verdict(false),
        // Not taken in: the listener has stopped.
        Ev::Next(Some(4)),
    ];
    let actions = listener.step_all(events);
    assert_eq!(
        actions,
        vec![
            Action::Handle(1),
            Action::Poll,
            Action::Handle(2),
            Action::HandleError("rip".to_string()),
            Action::Poll,
            Action::Handle(3),
            Action::HandleError("oh no".to_string()),
            Action::Stop,
        ]
    );
    assert!(listener.is_stopped());
    assert_eq!(listener.context(), "foo");
}

#[test]
fn a_replay_halts_at_an_outcome_not_waited_for() {
    let (mut listener, _) = Listener::<u8>::start::<u8, String>(5);
    let events: Vec<Ev<u8, u8>> = vec![Ev::Next(Some(1)), Ev::Verdict(true), Ev::Handled(Ok(None))];
    let actions = listener.step_all(events);
    assert_eq!(actions, vec![Action::Handle(1)]);
    assert_eq!(listener.phase(), Phase::AwaitingOutcome);
}
