use rustirc::binding::Binding;
use rustirc::commands::Command;
use rustirc::inlet::{InletSlot, Rejected};
use std::sync::mpsc::channel;

fn s(x: &str) -> String {
    x.to_string()
}

#[test]
fn empty_slot_rejects() {
    let slot = InletSlot::new();
    assert!(!slot.is_live());
    assert_eq!(slot.submit(Command::Reload), Err(Rejected::NoActiveConnection));
}

#[test]
fn live_slot_delivers() {
    let (tx, rx) = channel();
    let mut slot = InletSlot::new();
    slot.publish(tx);
    assert!(slot.is_live());
    assert_eq!(slot.submit(Command::Quit { msg: None }), Ok(()));
    assert_eq!(rx.try_recv().unwrap(), Command::Quit { msg: None });
}

#[test]
fn cleared_slot_fails_closed() {
    let (tx, rx) = channel();
    let mut slot = InletSlot::new();
    slot.publish(tx);
    slot.clear();
    assert_eq!(slot.submit(Command::Reload), Err(Rejected::NoActiveConnection));
    assert!(rx.try_recv().is_err());
    // a later session gets its own inlet and does not see the rejected command
    let (tx2, rx2) = channel();
    slot.publish(tx2);
    assert!(rx2.try_recv().is_err());
}

#[test]
fn dead_session_rejects() {
    let (tx, rx) = channel::<Command>();
    let mut slot = InletSlot::new();
    slot.publish(tx);
    drop(rx);
    assert_eq!(slot.submit(Command::Reload), Err(Rejected::NoActiveConnection));
}

#[test]
fn natives_fail_without_a_bound_session() {
    let mut b = Binding::new();
    assert!(!b.is_bound());
    assert_eq!(b.send(s("PRIVMSG #a :x")), Err(Rejected::NoActiveConnection));
    b.activate();
    assert_eq!(b.send(s("PRIVMSG #a :one")), Ok(()));
    assert_eq!(b.send(s("PRIVMSG #a :two")), Ok(()));
    assert_eq!(b.deactivate(), vec![s("PRIVMSG #a :one"), s("PRIVMSG #a :two")]);
    assert!(!b.is_bound());
    assert_eq!(b.send(s("PRIVMSG #a :late")), Err(Rejected::NoActiveConnection));
    assert!(b.deactivate().is_empty());
}
