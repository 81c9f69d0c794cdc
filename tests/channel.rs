use skyline_communicate::channel::Channel;
use std::cell::RefCell;

#[test]
fn install_current_clear() {
    let mut ch: Channel<u32> = Channel::new();
    assert!(!ch.is_connected());
    assert_eq!(ch.current(), None);
    ch.install(7);
    assert!(ch.is_connected());
    assert_eq!(ch.current(), Some(&7));
    ch.install(9);
    assert_eq!(ch.current(), Some(&9));
    ch.clear();
    assert_eq!(ch.current(), None);
    ch.clear();
    assert!(!ch.is_connected());
}

#[test]
fn send_after_clear_fails() {
    let mut ch: Channel<u32> = Channel::new();
    let written: RefCell<Vec<Vec<u8>>> = RefCell::new(Vec::new());
    ch.install(1);
    ch.clear();
    assert!(!ch.send("hi", |_c: &u32, b: Vec<u8>| {
        written.borrow_mut().push(b);
        true
    }));
    assert!(written.borrow().is_empty());
}

#[test]
fn send_writes_both_packets() {
    let mut ch: Channel<u32> = Channel::new();
    let written: RefCell<Vec<(u32, Vec<u8>)>> = RefCell::new(Vec::new());
    ch.install(4);
    assert!(ch.send("hi", |c: &u32, b: Vec<u8>| {
        written.borrow_mut().push((*c, b));
        true
    }));
    assert_eq!(
        written.borrow().clone(),
        vec![(4, vec![1, 2, 0, 0, 0, 0, 0, 0, 0]), (4, vec![2, b'h', b'i'])]
    );
}

#[test]
fn send_stops_after_failed_write() {
    let mut ch: Channel<u32> = Channel::new();
    let calls = RefCell::new(0);
    ch.install(4);
    assert!(!ch.send("hi", |_c: &u32, _b: Vec<u8>| {
        *calls.borrow_mut() += 1;
        false
    }));
    assert_eq!(*calls.borrow(), 1);
    let calls = RefCell::new(0);
    assert!(!ch.send("hi", |_c: &u32, _b: Vec<u8>| {
        *calls.borrow_mut() += 1;
        *calls.borrow() == 1
    }));
    assert_eq!(*calls.borrow(), 2);
}
