//! The binding of the live session to the script runtime. A session is
//! bound for the length of one dispatch; the natives that act on it queue
//! their protocol lines here, and fail while nothing is bound.

use crate::inlet::Rejected;
use crate::wire::texts;
use vstd::prelude::*;

verus! {

/// The session bound to the current dispatch, if any, with the lines the
/// scripts asked to send to it.
pub struct Binding {
    outbox: Option<Vec<String>>,
}

impl Binding {
    /// Whether a session is bound.
    pub closed spec fn bound(&self) -> bool {
        self.outbox is Some
    }

    /// The lines queued since the session was bound.
    pub closed spec fn pending(&self) -> Seq<Seq<char>> {
        match self.outbox {
            None => Seq::empty(),
            Some(v) => texts(v@),
        }
    }

    /// Nothing bound.
    pub fn new() -> (r: Binding)
        ensures
            !r.bound(),
    {
        Binding { outbox: None }
    }

    /// Binds a session, with nothing queued.
    pub fn activate(&mut self)
        ensures
            final(self).bound(),
            final(self).pending() == Seq::<Seq<char>>::empty(),
    {
        let v: Vec<String> = Vec::new();
        self.outbox = Some(v);
        assert(texts(v@) =~= Seq::<Seq<char>>::empty());
    }

    /// Unbinds the session and hands back the lines queued for it, in order.
    pub fn deactivate(&mut self) -> (r: Vec<String>)
        ensures
            !final(self).bound(),
            texts(r@) == old(self).pending(),
    {
        match self.outbox.take() {
            None => {
                let v: Vec<String> = Vec::new();
                assert(texts(v@) =~= Seq::<Seq<char>>::empty());
                v
            },
            Some(v) => v,
        }
    }

    /// Whether a session is bound.
    pub fn is_bound(&self) -> (r: bool)
        ensures
            r == self.bound(),
    {
        self.outbox.is_some()
    }

    /// Queues `line` for the bound session; without one the call fails and
    /// nothing is kept.
    pub fn send(&mut self, line: String) -> (r: Result<(), Rejected>)
        ensures
            final(self).bound() == old(self).bound(),
            old(self).bound() ==> r is Ok && final(self).pending() == old(self).pending().push(line@),
            !old(self).bound() ==> r == Err::<(), Rejected>(Rejected::NoActiveConnection)
                && final(self).pending() == old(self).pending(),
    {
        match &mut self.outbox {
            None => Err(Rejected::NoActiveConnection),
            Some(v) => {
                let ghost before = v@;
                v.push(line);
                assert(texts(v@) =~= texts(before).push(line@));
                Ok(())
            },
        }
    }
}

/// What the interpreter shares with the native functions of the `irc`
/// module: the handlers they registered, and the session they may act on.
pub struct ScriptChannel {
    /// Event names and handler references, in registration order.
    pub registrations: Vec<(String, i64)>,
    pub session: Binding,
}

impl ScriptChannel {
    /// No registration, no session bound.
    pub fn new() -> (r: ScriptChannel)
        ensures
            r.registrations@.len() == 0,
            !r.session.bound(),
    {
        ScriptChannel { registrations: Vec::new(), session: Binding::new() }
    }
}

} // verus!
