//! The command inlet shared by the producers (the operator's input and the
//! interrupt listener). It holds the sending side of the live session's
//! command channel, is replaced on every connection and emptied when the
//! session ends, so that producers fail closed instead of feeding a dead
//! session.

use crate::commands::Command;
use std::sync::mpsc::Sender;
use vstd::prelude::*;

verus! {

#[verifier::external_type_specification]
#[verifier::external_body]
#[verifier::reject_recursive_types(T)]
pub struct ExSender<T>(Sender<T>);

/// Relies on `std::sync::mpsc::Sender::send`: it never blocks, and fails
/// only when the receiving side is gone. Which of the two happens depends on
/// the other side, so nothing is stated of the result.
#[verifier::external_body]
fn send_command(tx: &Sender<Command>, c: Command) -> (r: bool) {
    tx.send(c).is_ok()
}

/// Why a command was not handed to a session.
#[derive(Clone, Copy, Debug, PartialEq, Eq, Structural)]
pub enum Rejected {
    /// No session is live, or the live one stopped taking commands.
    NoActiveConnection,
}

/// The swappable slot that holds the current session's inlet.
pub struct InletSlot {
    inlet: Option<Sender<Command>>,
}

impl InletSlot {
    /// Whether a session is live.
    pub closed spec fn live(&self) -> bool {
        self.inlet.is_some()
    }

    /// An empty slot: no session yet.
    pub fn new() -> (r: InletSlot)
        ensures
            !r.live(),
    {
        InletSlot { inlet: None }
    }

    /// Hands the slot the inlet of a session that has just been created.
    pub fn publish(&mut self, tx: Sender<Command>)
        ensures
            final(self).live(),
    {
        self.inlet = Some(tx);
    }

    /// Empties the slot: the session has ended.
    pub fn clear(&mut self)
        ensures
            cleared(*final(self)),
    {
        self.inlet = None;
    }

    /// Whether a session is live.
    pub fn is_live(&self) -> (r: bool)
        ensures
            r == self.live(),
    {
        self.inlet.is_some()
    }

    /// Hands `c` to the live session. Without one the command is rejected
    /// and dropped; it is never kept for a later session.
    pub fn submit(&self, c: Command) -> (r: Result<(), Rejected>)
        ensures
            submitted(*self, r),
    {
        match &self.inlet {
            None => Err(Rejected::NoActiveConnection),
            Some(tx) => {
                if send_command(tx, c) {
                    Ok(())
                } else {
                    Err(Rejected::NoActiveConnection)
                }
            },
        }
    }
}

/// What `clear` leaves: a slot without inlet.
pub open spec fn cleared(slot: InletSlot) -> bool {
    !slot.live()
}

/// What `submit` on `slot` returns: a rejection without a live session, and
/// success only with one.
pub open spec fn submitted(slot: InletSlot, r: Result<(), Rejected>) -> bool {
    &&& !slot.live() ==> r == Err::<(), Rejected>(Rejected::NoActiveConnection)
    &&& r is Ok ==> slot.live()
}

/// A command submitted after the session has ended (after `clear`, before
/// any `publish`) is rejected. `submit` takes the command by value, so a
/// rejected command is dropped: no later session can receive it.
pub proof fn lemma_fail_closed(slot: InletSlot, r: Result<(), Rejected>)
    requires
        cleared(slot),
        submitted(slot, r),
    ensures
        r == Err::<(), Rejected>(Rejected::NoActiveConnection),
{
}

} // verus!
