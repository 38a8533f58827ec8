//! Whether a model is loaded, and the counter that moves with it.

use dontspeakd::model_slot::{ModelSlot, ModelState};
use dontspeakd::status::StatusGate;

#[test]
fn fresh_transition_bumps() {
    let mut slot = ModelSlot::new();
    let mut gate = StatusGate::new();
    assert!(
        slot.transition(ModelState::Loaded, &mut gate),
        "a real change reports true"
    );
    assert_ne!(gate.seq(), 0, "the first transition bumps the counter");
    assert!(slot.is_loaded());
}

#[test]
fn identical_repeat_does_not_bump() {
    let mut slot = ModelSlot::new();
    let mut gate = StatusGate::new();
    slot.transition(ModelState::Loaded, &mut gate);
    let seq1 = gate.seq();
    assert!(
        !slot.transition(ModelState::Loaded, &mut gate),
        "an identical repeat reports false"
    );
    assert_eq!(gate.seq(), seq1, "an identical repeat must not bump again");
}

#[test]
fn a_different_failed_message_bumps_again() {
    let mut slot = ModelSlot::new();
    let mut gate = StatusGate::new();
    slot.transition(ModelState::Failed("boom".into()), &mut gate);
    let seq1 = gate.seq();
    assert_ne!(seq1, 0);

    slot.transition(ModelState::Failed("boom".into()), &mut gate);
    assert_eq!(gate.seq(), seq1, "an identical failure message must not bump again");

    slot.transition(ModelState::Failed("different".into()), &mut gate);
    assert_ne!(gate.seq(), seq1, "a different message bumps again");
    assert_eq!(slot.error().as_deref(), Some("different"));
}

#[test]
fn clear_error_is_a_noop_outside_failed() {
    let mut loaded = ModelSlot::new();
    let mut gate = StatusGate::new();
    loaded.transition(ModelState::Loaded, &mut gate);
    let seq1 = gate.seq();
    loaded.clear_error(&mut gate);
    assert_eq!(gate.seq(), seq1, "clear_error on Loaded must not touch it");
    assert!(loaded.is_loaded());

    let mut idle = ModelSlot::new();
    let mut gate = StatusGate::new();
    idle.clear_error(&mut gate);
    assert_eq!(gate.seq(), 0, "clear_error on a never-touched Idle must not bump");
}

#[test]
fn clear_error_forgets_a_failure() {
    let mut slot = ModelSlot::new();
    let mut gate = StatusGate::new();
    slot.transition(ModelState::Failed("boom".into()), &mut gate);
    slot.clear_error(&mut gate);
    assert_eq!(slot.error(), None);
    assert_eq!(gate.seq(), 2);
}

#[test]
fn mark_loaded_optimistic_never_bumps_regardless_of_prior_state() {
    let mut gate = StatusGate::new();

    let mut idle_slot = ModelSlot::new();
    idle_slot.mark_loaded_optimistic();
    assert_eq!(gate.seq(), 0);
    assert!(idle_slot.is_loaded());

    let mut loaded_slot = ModelSlot::new();
    loaded_slot.transition(ModelState::Loaded, &mut StatusGate::new());
    loaded_slot.mark_loaded_optimistic();
    assert!(loaded_slot.is_loaded());
    assert_eq!(gate.seq(), 0);

    let mut failed_slot = ModelSlot::new();
    failed_slot.transition(ModelState::Failed("boom".into()), &mut gate);
    let seq_after_fail = gate.seq();
    failed_slot.mark_loaded_optimistic();
    assert_eq!(
        gate.seq(),
        seq_after_fail,
        "mark_loaded_optimistic must never bump the counter"
    );
    assert!(!failed_slot.is_loaded());
}

#[test]
fn mark_loaded_optimistic_leaves_a_failed_state_alone() {
    let mut slot = ModelSlot::new();
    slot.transition(ModelState::Failed("boom".into()), &mut StatusGate::new());

    slot.mark_loaded_optimistic();

    assert!(
        !slot.is_loaded(),
        "mark_loaded_optimistic must not paper over a Failed state"
    );
    assert_eq!(
        slot.error().as_deref(),
        Some("boom"),
        "the error message must survive unchanged"
    );
}
