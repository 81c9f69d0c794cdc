use skyline_communicate::channel::Channel;
use skyline_communicate::dispatch::Receiver;
use skyline_communicate::driver::{greeting, Driver, Phase, ReadFault, Role, Step};
use skyline_communicate::wire::{decode, encode, ProtocolError};
use std::cell::RefCell;

#[test]
fn client_retries_until_connected() {
    let mut d = Driver::client();
    let mut ch: Channel<u8> = Channel::new();
    for _ in 0..50 {
        assert!(matches!(d.setup_failed(), Step::Retry));
        assert_eq!(d.phase, Phase::Connecting);
        assert!(!ch.is_connected());
    }
    assert!(matches!(d.established(&mut ch, 3), Step::Receive));
    assert_eq!(d.phase, Phase::Connected);
    assert_eq!(ch.current(), Some(&3));
}

#[test]
fn client_reconnects_after_fault() {
    let mut d = Driver::client();
    let mut ch: Channel<u8> = Channel::new();
    d.established(&mut ch, 1);
    match d.received(&mut ch, Err(ReadFault::Transport)) {
        Step::Disconnect(n) => assert!(n.is_empty()),
        _ => panic!("expected a disconnect"),
    }
    assert_eq!(d.phase, Phase::Connecting);
    assert!(!ch.is_connected());
    assert!(matches!(d.established(&mut ch, 2), Step::Receive));
    assert_eq!(ch.current(), Some(&2));
}

#[test]
fn client_tag_fault_sends_diagnostic() {
    let mut d = Driver::client();
    let mut ch: Channel<u8> = Channel::new();
    d.established(&mut ch, 1);
    match d.received(&mut ch, Err(ReadFault::Protocol(ProtocolError::UnexpectedTag))) {
        Step::Disconnect(n) => {
            assert_eq!(n, vec!["Receiving error: Invalid string packet encounterd."])
        }
        _ => panic!("expected a disconnect"),
    }
    assert!(!ch.is_connected());
}

#[test]
fn server_greets_and_returns_to_accepting() {
    let mut d = Driver::server("box");
    assert!(matches!(d.role, Role::Server { .. }));
    assert_eq!(d.phase, Phase::Binding);
    let mut ch: Channel<u8> = Channel::new();
    assert!(matches!(d.setup_failed(), Step::Retry));
    assert_eq!(d.phase, Phase::Binding);
    d.bound();
    assert_eq!(d.phase, Phase::Connecting);
    match d.established(&mut ch, 5) {
        Step::Greet(g) => assert_eq!(g, "Connected to server. Host: box"),
        _ => panic!("expected a greeting"),
    }
    match d.received(&mut ch, Err(ReadFault::Transport)) {
        Step::Disconnect(n) => {
            assert_eq!(n, vec!["Failed to read message. Disconnecting from server."])
        }
        _ => panic!("expected a disconnect"),
    }
    assert_eq!(d.phase, Phase::Connecting);
    assert!(!ch.is_connected());
    assert!(matches!(d.established(&mut ch, 6), Step::Greet(_)));
    assert_eq!(ch.current(), Some(&6));
}

#[test]
fn server_tag_fault_sends_both_notices() {
    let mut d = Driver::server("h");
    let mut ch: Channel<u8> = Channel::new();
    d.bound();
    d.established(&mut ch, 1);
    match d.received(&mut ch, Err(ReadFault::Protocol(ProtocolError::UnexpectedTag))) {
        Step::Disconnect(n) => assert_eq!(
            n,
            vec![
                "Receiving error: Invalid string packet encounterd.",
                "Failed to read message. Disconnecting from server."
            ]
        ),
        _ => panic!("expected a disconnect"),
    }
}

#[test]
fn greeting_names_host() {
    assert_eq!(greeting(""), "Connected to server. Host: ");
    assert_eq!(greeting("skyline"), "Connected to server. Host: skyline");
}

#[test]
fn messages_dispatched_in_order() {
    let mut wire = Vec::new();
    for m in ["m1", "m2 a", "m3"] {
        let (h, b) = encode(m);
        wire.extend(h);
        wire.extend(b);
    }
    let seen: RefCell<Vec<String>> = RefCell::new(Vec::new());
    let r: Receiver<fn(Vec<String>), _> = Receiver::Normal(|m: String| seen.borrow_mut().push(m));
    let mut d = Driver::client();
    let mut ch: Channel<u8> = Channel::new();
    d.established(&mut ch, 1);
    let mut at = 0;
    loop {
        let outcome = match decode(&wire[at..]) {
            Ok((m, k)) => {
                at += k;
                Ok(m)
            }
            Err(e) => Err(ReadFault::Protocol(e)),
        };
        match d.received(&mut ch, outcome) {
            Step::Dispatch(m) => r.deliver(m),
            Step::Disconnect(_) => break,
            _ => panic!("unexpected step"),
        }
    }
    assert_eq!(seen.borrow().clone(), vec!["m1", "m2 a", "m3"]);
    assert!(!ch.is_connected());
}
