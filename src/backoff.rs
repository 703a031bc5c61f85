//! Reconnection delays.

use vstd::prelude::*;

verus! {

/// The delay that follows `d` seconds when backoff is enabled.
pub open spec fn backoff_step(d: int) -> int {
    if 0 <= d <= 4 {
        5
    } else if 5 <= d <= 9 {
        10
    } else if 10 <= d <= 19 {
        20
    } else if 20 <= d <= 29 {
        30
    } else if 30 <= d <= 59 {
        60
    } else if 61 <= d <= 149 {
        150
    } else if 151 <= d <= 299 {
        300
    } else {
        d + 60
    }
}

/// Next reconnection delay after waiting `secs` seconds, saturating at the
/// largest representable delay.
pub open spec fn next_delay_spec(secs: u64, backoff: bool) -> u64 {
    if !backoff {
        secs
    } else if backoff_step(secs as int) > u64::MAX {
        u64::MAX
    } else {
        backoff_step(secs as int) as u64
    }
}

/// Next reconnection delay after waiting `secs` seconds.
pub fn next_delay(secs: u64, backoff: bool) -> (r: u64)
    ensures
        r == next_delay_spec(secs, backoff),
{
    if !backoff {
        secs
    } else if secs <= 4 {
        5
    } else if secs <= 9 {
        10
    } else if secs <= 19 {
        20
    } else if secs <= 29 {
        30
    } else if secs <= 59 {
        60
    } else if 61 <= secs && secs <= 149 {
        150
    } else if 151 <= secs && secs <= 299 {
        300
    } else {
        secs.saturating_add(60)
    }
}

/// How a session ended.
#[derive(Clone, Copy, Debug, PartialEq, Eq, Structural)]
pub enum SessionEnd {
    /// The bot quit gracefully.
    Quit,
    /// A transport failure after the connection had been made.
    IoFailure,
    /// Any other failure: a connection attempt that failed, a refusal by the
    /// server, a protocol error.
    OtherFailure,
}

/// What the orchestrator does once a session has ended.
#[derive(Clone, Copy, Debug, PartialEq, Eq, Structural)]
pub enum Next {
    /// Stop: no further connection attempt.
    Terminate,
    /// Sleep this many seconds, then connect again.
    Reconnect(u64),
}

/// The reconnection state carried across sessions.
#[derive(Clone, Copy, Debug, PartialEq, Eq, Structural)]
pub struct ReconnectState {
    /// The configured initial delay; `None` disables reconnection.
    pub initial: Option<u64>,
    /// Whether the delay grows after each wait.
    pub backoff: bool,
    /// The delay to wait before the next attempt.
    pub delay: Option<u64>,
}

/// The delay in force once a session has ended this way.
pub open spec fn delay_after_end(st: ReconnectState, end: SessionEnd) -> Option<u64> {
    if end == SessionEnd::IoFailure {
        st.initial
    } else {
        st.delay
    }
}

/// The decision taken when a session ends.
pub open spec fn next_spec(st: ReconnectState, end: SessionEnd) -> Next {
    if end == SessionEnd::Quit {
        Next::Terminate
    } else {
        match delay_after_end(st, end) {
            None => Next::Terminate,
            Some(d) => Next::Reconnect(d),
        }
    }
}

/// The state carried to the following session.
pub open spec fn state_after_spec(st: ReconnectState, end: SessionEnd) -> ReconnectState {
    if end == SessionEnd::Quit {
        st
    } else if end == SessionEnd::IoFailure {
        ReconnectState { delay: st.initial, ..st }
    } else {
        ReconnectState {
            delay: match st.delay {
                None => None,
                Some(d) => Some(next_delay_spec(d, st.backoff)),
            },
            ..st
        }
    }
}

impl ReconnectState {
    /// The state before the first connection attempt.
    pub fn new(initial: Option<u64>, backoff: bool) -> (r: ReconnectState)
        ensures
            r.initial == initial,
            r.backoff == backoff,
            r.delay == initial,
    {
        ReconnectState { initial, backoff, delay: initial }
    }

    /// Records how a session ended, and says whether and after how long to
    /// connect again.
    pub fn session_ended(&mut self, end: SessionEnd) -> (r: Next)
        ensures
            r == next_spec(*old(self), end),
            *final(self) == state_after_spec(*old(self), end),
    {
        if end == SessionEnd::Quit {
            return Next::Terminate;
        }
        if end == SessionEnd::IoFailure {
            // the session had connected: start the backoff over
            self.delay = self.initial;
            return match self.initial {
                None => Next::Terminate,
                Some(d) => Next::Reconnect(d),
            };
        }
        match self.delay {
            None => Next::Terminate,
            Some(d) => {
                self.delay = Some(next_delay(d, self.backoff));
                Next::Reconnect(d)
            },
        }
    }
}

/// With backoff enabled a delay never shrinks from one wait to the next;
/// with backoff disabled it stays the same.
pub proof fn lemma_backoff_monotone(d: u64, backoff: bool)
    ensures
        backoff ==> next_delay_spec(d, backoff) >= d,
        !backoff ==> next_delay_spec(d, backoff) == d,
{
}

/// Across consecutive failures that are not transport failures, each wait is
/// the delay in force and the next one is no shorter (the same one when
/// backoff is disabled).
pub proof fn lemma_failures_never_shorten(st: ReconnectState, d: u64)
    requires
        st.delay == Some(d),
    ensures
        next_spec(st, SessionEnd::OtherFailure) == Next::Reconnect(d),
        state_after_spec(st, SessionEnd::OtherFailure).delay matches Some(n) && n >= d,
        !st.backoff ==> state_after_spec(st, SessionEnd::OtherFailure).delay == Some(d),
{
}

/// A transport failure ends a session that had connected: the wait after it
/// is the configured initial delay, however far the backoff had progressed,
/// and the backoff starts over from that delay, so the next failed attempt
/// waits the initial delay too.
pub proof fn lemma_reset_on_io_failure(st: ReconnectState)
    requires
        st.initial.is_some(),
    ensures
        next_spec(st, SessionEnd::IoFailure) == Next::Reconnect(st.initial.unwrap()),
        state_after_spec(st, SessionEnd::IoFailure).delay == st.initial,
        next_spec(state_after_spec(st, SessionEnd::IoFailure), SessionEnd::OtherFailure)
            == Next::Reconnect(st.initial.unwrap()),
{
}

/// Without a configured initial delay the orchestrator stops after the
/// first session, whatever way it ended.
pub proof fn lemma_no_reconnect(st: ReconnectState, end: SessionEnd)
    requires
        st.initial.is_none(),
        st.delay.is_none(),
    ensures
        next_spec(st, end) == Next::Terminate,
{
}

} // verus!
