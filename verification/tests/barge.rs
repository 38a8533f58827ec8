//! The microphone watcher, tick by tick.

use dontspeakd::barge::{barge_step, BargeAction, BargeState, TEARDOWN_GRACE_TICKS};

const MAX: u32 = 40;
const IDLE: BargeState = BargeState {
    prev: false,
    barged: false,
    ticks: 0,
    prev_ours: false,
    teardown_grace: 0,
};

fn step(active: bool, ours: bool, st: BargeState) -> (BargeAction, BargeState) {
    barge_step(active, ours, false, st, MAX)
}

#[test]
fn foreign_mic_rising_edge_pauses_and_marks_barged() {
    let (a, st) = step(true, false, IDLE);
    assert_eq!(a, BargeAction::Pause);
    assert!(st.barged && st.prev);
}

#[test]
fn our_mic_never_barges() {
    let (a, st) = step(true, true, IDLE);
    assert_eq!(a, BargeAction::Nothing);
    assert!(!st.barged);
}

#[test]
fn idle_tick_without_a_barge_does_not_resume() {
    assert_eq!(step(false, false, IDLE).0, BargeAction::Nothing);
    let mut st = IDLE;
    for _ in 0..100 {
        let (a, n) = step(false, false, st);
        assert_eq!(a, BargeAction::Nothing, "an idle tick must never resume");
        st = n;
    }
}

#[test]
fn our_barge_resumes_only_when_its_mic_idles() {
    let (_, barged) = step(true, false, IDLE);
    let (a, st) = step(true, false, barged);
    assert_eq!(a, BargeAction::Nothing);
    assert!(st.barged && st.ticks == 1);
    let (a, st) = step(false, false, st);
    assert_eq!(a, BargeAction::Resume);
    assert!(!st.barged);
}

#[test]
fn ours_flips_true_mid_barge_holds_the_self_heal_counter() {
    let (a, mut st) = step(true, false, IDLE);
    assert_eq!(a, BargeAction::Pause);
    assert!(st.barged);

    for _ in 0..5 {
        let (a, next) = step(true, true, st);
        assert_eq!(a, BargeAction::Nothing);
        assert!(next.barged, "still a barge of the watcher");
        assert_eq!(next.ticks, 0, "the counter must not advance meanwhile");
        st = next;
    }

    let (a, st) = step(false, true, st);
    assert_eq!(a, BargeAction::Resume);
    assert!(!st.barged);
}

#[test]
fn sticky_foreign_barge_self_heals_after_max_ticks() {
    let (_, mut st) = step(true, false, IDLE);
    for _ in 0..(MAX - 1) {
        let (a, n) = step(true, false, st);
        assert_eq!(a, BargeAction::Nothing);
        st = n;
    }
    let (a, st) = step(true, false, st);
    assert_eq!(a, BargeAction::Resume, "a bounded barge ends");
    assert!(!st.barged && st.ticks == 0);
}

#[test]
fn full_duplex_stands_down() {
    let (a, st) = barge_step(true, false, true, IDLE, MAX);
    assert_eq!(a, BargeAction::Nothing);
    assert!(st.prev && !st.barged);
}

#[test]
fn entering_full_duplex_unwinds_a_watcher_owned_pause() {
    let (a, barged) = step(true, false, IDLE);
    assert_eq!(a, BargeAction::Pause);

    let (a, st) = barge_step(false, false, true, barged, MAX);
    assert_eq!(a, BargeAction::Resume);
    assert!(st.prev && !st.barged);
}

#[test]
fn foreign_capture_outlives_our_dictation_gets_paused_after_grace_window() {
    let (_, st) = step(true, true, IDLE);
    let (_, mut st) = step(true, true, st);
    for _ in 0..(TEARDOWN_GRACE_TICKS - 1) {
        let (a, next) = step(true, false, st);
        assert_eq!(a, BargeAction::Nothing, "still within the grace window");
        st = next;
    }
    let (a, st) = step(true, false, st);
    assert_eq!(a, BargeAction::Pause);
    assert!(st.barged);
}

#[test]
fn own_teardown_lag_does_not_false_pause_normal_dictation_end() {
    let (_, mut st) = step(true, true, IDLE);
    let mut paused = false;
    for _ in 0..(TEARDOWN_GRACE_TICKS - 1) {
        let (a, next) = step(true, false, st);
        paused |= a == BargeAction::Pause;
        st = next;
    }
    let (a, st) = step(false, false, st);
    paused |= a == BargeAction::Pause;
    assert!(!paused, "a late teardown of our own is no foreign microphone");
    assert!(!st.barged);
}

#[test]
fn default_state_is_idle() {
    assert_eq!(BargeState::default(), IDLE);
}
