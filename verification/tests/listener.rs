use deep_link::identity::IdentityStore;
use deep_link::listener::{
    listen, AcceptFailure, Fatal, Listener, ListenerAction, ListenerEvent, Phase, CRASH_CEILING,
    EXHAUSTION_CODE,
};

fn identity() -> IdentityStore {
    let mut store = IdentityStore::new();
    store.set("com.example.app");
    store
}

fn failure(os_code: Option<i32>) -> AcceptFailure {
    AcceptFailure { os_code }
}

fn accepting() -> Listener {
    let mut listener = Listener::new();
    assert_eq!(listen(&mut listener, &identity()), ListenerAction::Bind("com.example.app".to_string()));
    assert_eq!(listener.step(ListenerEvent::Bound(true)), ListenerAction::Accept);
    listener
}

#[test]
fn the_constants_are_those_of_the_protocol() {
    assert_eq!(CRASH_CEILING, 5);
    assert_eq!(EXHAUSTION_CODE, 232);
}

#[test]
fn a_new_listener_is_not_listening() {
    let listener = Listener::new();
    assert_eq!(listener.phase(), Phase::NotListening);
    assert_eq!(listener.crash_count(), 0);
}

#[test]
fn listen_asks_for_the_channel_of_the_identity() {
    let mut listener = Listener::new();
    assert_eq!(listen(&mut listener, &identity()), ListenerAction::Bind("com.example.app".to_string()));
    assert_eq!(listener.phase(), Phase::Binding);
}

#[test]
fn a_bound_channel_is_accepted_on() {
    let listener = accepting();
    assert_eq!(listener.phase(), Phase::Accepting);
    assert_eq!(listener.crash_count(), 0);
}

#[test]
fn a_failed_bind_is_fatal() {
    let mut listener = Listener::new();
    listen(&mut listener, &identity());
    assert_eq!(listener.step(ListenerEvent::Bound(false)), ListenerAction::Fail(Fatal::BindFailed));
    assert_eq!(listener.phase(), Phase::FatalBindFailure);
    assert_eq!(listener.step(ListenerEvent::Bound(true)), ListenerAction::Fail(Fatal::BindFailed));
    assert_eq!(listen(&mut listener, &identity()), ListenerAction::Fail(Fatal::BindFailed));
    assert_eq!(listener.phase(), Phase::FatalBindFailure);
    assert_eq!(listener.crash_count(), 0);
}

#[test]
fn a_received_line_is_delivered_without_its_delimiter() {
    let mut listener = accepting();
    assert_eq!(
        listener.step(ListenerEvent::Received("myapp://open\n".to_string())),
        ListenerAction::Deliver("myapp://open".to_string())
    );
    assert_eq!(listener.phase(), Phase::HandlingConnection);
    assert_eq!(listener.step(ListenerEvent::Handled(true)), ListenerAction::Accept);
    assert_eq!(listener.phase(), Phase::Accepting);
}

#[test]
fn an_empty_line_is_delivered_as_the_empty_payload() {
    let mut listener = accepting();
    assert_eq!(
        listener.step(ListenerEvent::Received("\n".to_string())),
        ListenerAction::Deliver(String::new())
    );
}

#[test]
fn a_failed_handler_does_not_end_the_loop() {
    let mut listener = accepting();
    listener.step(ListenerEvent::Received("x\n".to_string()));
    assert_eq!(listener.step(ListenerEvent::Handled(false)), ListenerAction::Accept);
    assert_eq!(listener.phase(), Phase::Accepting);
    assert_eq!(listener.crash_count(), 0);
}

#[test]
fn a_failed_read_skips_the_handler() {
    let mut listener = accepting();
    assert_eq!(listener.step(ListenerEvent::ReadFailed), ListenerAction::Accept);
    assert_eq!(listener.phase(), Phase::Accepting);
}

#[test]
fn a_passing_accept_failure_is_tolerated() {
    let mut listener = accepting();
    for code in [Some(5), Some(231), Some(233), Some(1232), Some(2320), Some(-232), Some(0), None] {
        let action = listener.step(ListenerEvent::AcceptFailed(failure(code)));
        assert_eq!(action, ListenerAction::Accept, "code {:?}", code);
        assert_eq!(listener.phase(), Phase::Accepting);
        assert_eq!(listener.crash_count(), 0);
    }
    assert_eq!(
        listener.step(ListenerEvent::Received("after\n".to_string())),
        ListenerAction::Deliver("after".to_string())
    );
}

#[test]
fn exhaustion_is_known_by_its_code_alone() {
    assert!(failure(Some(232)).is_exhaustion());
    assert!(!failure(Some(231)).is_exhaustion());
    assert!(!failure(Some(233)).is_exhaustion());
    assert!(!failure(Some(1232)).is_exhaustion());
    assert!(!failure(Some(2320)).is_exhaustion());
    assert!(!failure(Some(-232)).is_exhaustion());
    assert!(!failure(Some(i32::MAX)).is_exhaustion());
    assert!(!failure(None).is_exhaustion());
}

#[test]
fn exhaustion_ends_the_accept_loop() {
    let mut listener = accepting();
    let action = listener.step(ListenerEvent::AcceptFailed(failure(Some(232))));
    assert_eq!(action, ListenerAction::Restart);
    assert_eq!(listener.phase(), Phase::Restarting);
    assert_eq!(listener.crash_count(), 1);
}

#[test]
fn a_closed_channel_ends_the_accept_loop() {
    let mut listener = accepting();
    assert_eq!(listener.step(ListenerEvent::Closed), ListenerAction::Restart);
    assert_eq!(listener.phase(), Phase::Restarting);
    assert_eq!(listener.crash_count(), 1);
    assert_eq!(listen(&mut listener, &identity()), ListenerAction::Bind("com.example.app".to_string()));
    assert_eq!(listener.phase(), Phase::Binding);
    assert_eq!(listener.crash_count(), 1);
}

#[test]
fn the_listener_restarts_five_times_and_then_gives_up() {
    let store = identity();
    let mut listener = Listener::new();
    let mut binds = 0;
    let mut rounds = 0;
    loop {
        match listen(&mut listener, &store) {
            ListenerAction::Bind(name) => {
                assert_eq!(name, "com.example.app");
                binds += 1;
            }
            ListenerAction::Fail(why) => {
                assert_eq!(why, Fatal::CeilingExceeded);
                break;
            }
            other => panic!("unexpected {:?}", other),
        }
        assert_eq!(listener.step(ListenerEvent::Bound(true)), ListenerAction::Accept);
        let exit = if rounds % 2 == 0 {
            ListenerEvent::AcceptFailed(failure(Some(232)))
        } else {
            ListenerEvent::Closed
        };
        assert_eq!(listener.step(exit), ListenerAction::Restart);
        rounds += 1;
        assert_eq!(listener.crash_count(), rounds);
        assert!(rounds <= 6, "the listener restarts without end");
    }
    assert_eq!(binds, 6);
    assert_eq!(rounds, 6);
    assert_eq!(listener.crash_count(), 6);
    assert_eq!(listener.phase(), Phase::CeilingExceeded);
    assert_eq!(listen(&mut listener, &store), ListenerAction::Fail(Fatal::CeilingExceeded));
    assert_eq!(listener.step(ListenerEvent::Bound(true)), ListenerAction::Fail(Fatal::CeilingExceeded));
    assert_eq!(listener.crash_count(), 6);
}

#[test]
fn payloads_are_delivered_in_the_order_of_the_connections() {
    let mut listener = accepting();
    let lines = ["one\n", "two\n", "\n", "three", "four\nfive\n"];
    let mut seen = Vec::new();
    for (i, line) in lines.iter().enumerate() {
        if i == 2 {
            assert_eq!(listener.step(ListenerEvent::ReadFailed), ListenerAction::Accept);
        }
        match listener.step(ListenerEvent::Received(line.to_string())) {
            ListenerAction::Deliver(payload) => seen.push(payload),
            other => panic!("unexpected {:?}", other),
        }
        assert_eq!(listener.step(ListenerEvent::Handled(true)), ListenerAction::Accept);
    }
    assert_eq!(seen, vec!["one", "two", "", "three", "four"]);
    assert_eq!(listener.phase(), Phase::Accepting);
}

#[test]
fn events_out_of_turn_change_nothing() {
    let mut listener = Listener::new();
    assert_eq!(listener.step(ListenerEvent::Bound(true)), ListenerAction::Ignore);
    assert_eq!(listener.step(ListenerEvent::Closed), ListenerAction::Ignore);
    assert_eq!(listener.phase(), Phase::NotListening);

    listen(&mut listener, &identity());
    assert_eq!(listen(&mut listener, &identity()), ListenerAction::Ignore);
    assert_eq!(listener.step(ListenerEvent::Received("x\n".to_string())), ListenerAction::Ignore);
    assert_eq!(listener.step(ListenerEvent::Closed), ListenerAction::Ignore);
    assert_eq!(listener.phase(), Phase::Binding);

    listener.step(ListenerEvent::Bound(true));
    assert_eq!(listener.step(ListenerEvent::Bound(true)), ListenerAction::Ignore);
    assert_eq!(listener.step(ListenerEvent::Handled(true)), ListenerAction::Ignore);
    assert_eq!(listen(&mut listener, &identity()), ListenerAction::Ignore);
    assert_eq!(listener.phase(), Phase::Accepting);

    listener.step(ListenerEvent::Received("x\n".to_string()));
    assert_eq!(listener.step(ListenerEvent::Closed), ListenerAction::Ignore);
    assert_eq!(listener.step(ListenerEvent::Received("y\n".to_string())), ListenerAction::Ignore);
    assert_eq!(listener.phase(), Phase::HandlingConnection);
    assert_eq!(listener.crash_count(), 0);
}

#[test]
fn a_listener_binds_when_started_while_it_waits_below_the_ceiling() {
    let store = identity();
    let mut listener = Listener::new();
    assert!(listener.binds_when_started());
    listen(&mut listener, &store);
    assert!(!listener.binds_when_started());
    listener.step(ListenerEvent::Bound(true));
    assert!(!listener.binds_when_started());
    for round in 1..=6 {
        assert_eq!(listener.step(ListenerEvent::Closed), ListenerAction::Restart);
        assert_eq!(listener.binds_when_started(), round <= 5);
        if round <= 5 {
            listen(&mut listener, &store);
            listener.step(ListenerEvent::Bound(true));
        }
    }
}

#[test]
fn a_listener_past_the_ceiling_is_refused_without_an_identity() {
    let store = identity();
    let mut listener = Listener::new();
    for _ in 0..6 {
        listen(&mut listener, &store);
        listener.step(ListenerEvent::Bound(true));
        listener.step(ListenerEvent::Closed);
    }
    let unset = IdentityStore::new();
    assert_eq!(listen(&mut listener, &unset), ListenerAction::Fail(Fatal::CeilingExceeded));
    assert_eq!(listen(&mut listener, &unset), ListenerAction::Fail(Fatal::CeilingExceeded));
}

#[test]
fn a_running_listener_ignores_a_start_without_an_identity() {
    let mut listener = accepting();
    assert_eq!(listen(&mut listener, &IdentityStore::new()), ListenerAction::Ignore);
    assert_eq!(listener.phase(), Phase::Accepting);
}
