use rustirc::backoff::{next_delay, Next, ReconnectState, SessionEnd};

#[test]
fn backoff_table() {
    let cases: [(u64, u64); 16] = [
        (0, 5), (4, 5), (5, 10), (9, 10), (10, 20), (19, 20), (20, 30), (29, 30),
        (30, 60), (59, 60), (61, 150), (149, 150), (151, 300), (299, 300), (300, 360), (1000, 1060),
    ];
    for (d, want) in cases.iter() {
        assert_eq!(next_delay(*d, true), *want, "delay {}", d);
    }
}

#[test]
fn backoff_gaps_add_a_minute() {
    assert_eq!(next_delay(60, true), 120);
    assert_eq!(next_delay(150, true), 210);
}

#[test]
fn backoff_saturates() {
    assert_eq!(next_delay(u64::MAX, true), u64::MAX);
    assert_eq!(next_delay(u64::MAX - 10, true), u64::MAX);
}

#[test]
fn backoff_disabled_keeps_the_delay() {
    for d in [0u64, 5, 42, 300, 9999].iter() {
        assert_eq!(next_delay(*d, false), *d);
    }
}

#[test]
fn backoff_never_shrinks() {
    let mut d: u64 = 0;
    for _ in 0..50 {
        let n = next_delay(d, true);
        assert!(n >= d);
        d = n;
    }
}

#[test]
fn failures_then_success_reset_the_delay() {
    let mut st = ReconnectState::new(Some(5), true);
    assert_eq!(st.session_ended(SessionEnd::OtherFailure), Next::Reconnect(5));
    assert_eq!(st.session_ended(SessionEnd::OtherFailure), Next::Reconnect(10));
    assert_eq!(st.session_ended(SessionEnd::OtherFailure), Next::Reconnect(20));
    // the fourth attempt connects, and then fails on the transport
    assert_eq!(st.session_ended(SessionEnd::IoFailure), Next::Reconnect(5));
    assert_eq!(st.delay, Some(5));
    // the fifth attempt fails: the backoff started over
    assert_eq!(st.session_ended(SessionEnd::OtherFailure), Next::Reconnect(5));
    assert_eq!(st.session_ended(SessionEnd::OtherFailure), Next::Reconnect(10));
}

#[test]
fn quit_terminates() {
    let mut st = ReconnectState::new(Some(5), true);
    assert_eq!(st.session_ended(SessionEnd::Quit), Next::Terminate);
}

#[test]
fn no_reconnect_policy_terminates() {
    let mut st = ReconnectState::new(None, true);
    assert_eq!(st.session_ended(SessionEnd::IoFailure), Next::Terminate);
    let mut st = ReconnectState::new(None, false);
    assert_eq!(st.session_ended(SessionEnd::OtherFailure), Next::Terminate);
}

#[test]
fn constant_delay_without_backoff() {
    let mut st = ReconnectState::new(Some(7), false);
    for _ in 0..4 {
        assert_eq!(st.session_ended(SessionEnd::OtherFailure), Next::Reconnect(7));
    }
}
