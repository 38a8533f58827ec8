//! What the helper's transcripts do to the dictation that is under way.

use dontspeakd::engine::paste::{FinalState, PasteBuf};
use dontspeakd::helper_stt::{
    abort_session, begin_session, deposit_final, join_step, note_partial, HelperStt, JoinStep,
    JOIN_TIMEOUT,
};

#[test]
fn deposits_when_epoch_matches() {
    let mut p = PasteBuf { epoch: 5, partial: "live".into(), ..PasteBuf::new() };
    assert!(deposit_final(&mut p, 5, "  hello world  "));
    assert_eq!(p.final_state, FinalState::Ready("hello world".into()));
    assert!(p.partial.is_empty(), "partial cleared on deposit");
}

#[test]
fn drops_stale_final_when_epoch_advanced() {
    let mut p = PasteBuf {
        epoch: 6,
        partial: "newer session partial".into(),
        ..PasteBuf::new()
    };
    assert!(!deposit_final(&mut p, 5, "stale final"));
    assert_eq!(
        p.final_state,
        FinalState::Idle,
        "stale final must not deposit or signal ready"
    );
    assert_eq!(p.partial, "newer session partial", "live partial untouched");
}

#[test]
fn empty_final_signals_ready_without_pending() {
    let mut p = PasteBuf { epoch: 1, ..PasteBuf::new() };
    assert!(deposit_final(&mut p, 1, "   "));
    assert_eq!(p.final_state, FinalState::Empty);
}

#[test]
fn a_session_is_begun_followed_and_aborted() {
    let mut p = PasteBuf::new();
    let epoch = begin_session(&mut p);
    note_partial(&mut p, "so far");
    assert_eq!(p.partial, "so far");
    abort_session(&mut p);
    assert!(p.partial.is_empty());
    assert!(!deposit_final(&mut p, epoch, "late"), "an aborted session's text is dropped");
    assert_eq!(p.final_state, FinalState::Idle);
}

#[test]
fn a_stopped_session_deposits_under_its_number() {
    let mut p = PasteBuf::new();
    let mut stt = HelperStt::new();
    assert_eq!(stt.stop(), None, "nothing to stop");
    assert!(stt.start(&mut p));
    let begun = p.epoch;
    assert!(stt.is_listening());
    assert!(stt.start(&mut p), "it listens already");
    assert_eq!(p.epoch, begun, "and goes on under the same number");
    let epoch = stt.stop().expect("a session");
    assert_eq!(epoch, p.epoch);
    assert!(deposit_final(&mut p, epoch, "text"));
    assert_eq!(p.final_state, FinalState::Ready("text".into()));
}

#[test]
fn a_session_that_is_broken_off_leaves_nothing() {
    let mut p = PasteBuf::new();
    let mut stt = HelperStt::new();
    assert!(stt.start(&mut p));
    let epoch = p.epoch;
    assert!(stt.abort(&mut p));
    assert!(!deposit_final(&mut p, epoch, "late"));
    assert!(!stt.abort(&mut p), "nothing to wait for");
    assert_eq!(join_step(false, 0), JoinStep::Wait);
    assert_eq!(join_step(true, JOIN_TIMEOUT - 1), JoinStep::Ended);
    assert_eq!(join_step(false, JOIN_TIMEOUT), JoinStep::GiveUp);
}
