//! The place of the helper process.

use dontspeakd::child_slot::ChildSlot;

#[test]
fn new_slot_is_empty_gen_zero_eof_unexpected() {
    let slot: ChildSlot<u32> = ChildSlot::new();
    assert!(!slot.is_running());
    assert_eq!(slot.generation(), 0);
    assert_eq!(slot.running_gen(), None);
    assert!(!slot.eof_was_expected());
    assert_eq!(slot.probe(true), (false, false), "probe on an empty slot");
    assert_eq!(slot.child(), None);
}

#[test]
fn install_bumps_gen_and_clears_the_expected_flag() {
    let mut slot: ChildSlot<u32> = ChildSlot::new();
    slot.begin_deliberate_stop();
    assert!(slot.eof_was_expected());

    slot.install(7);
    assert!(slot.is_running());
    assert_eq!(slot.generation(), 1);
    assert_eq!(slot.running_gen(), Some(1));
    assert!(
        !slot.eof_was_expected(),
        "install must reset the deliberate-stop marker unconditionally"
    );
    assert_eq!(slot.reap(), Some(7));
}

#[test]
fn reap_marks_the_eof_expected_and_empties_the_slot() {
    let mut slot: ChildSlot<u32> = ChildSlot::new();
    slot.install(7);
    assert!(!slot.eof_was_expected());

    assert_eq!(slot.reap(), Some(7), "first reap returns the child");
    assert!(
        slot.eof_was_expected(),
        "a child must never leave the slot without its end marked deliberate"
    );
    assert!(!slot.is_running());
    assert!(slot.reap().is_none(), "second reap: the slot is already empty");
}

#[test]
fn generation_survives_a_reap() {
    let mut slot: ChildSlot<u32> = ChildSlot::new();
    slot.install(7);
    assert_eq!(slot.reap(), Some(7));

    assert_eq!(slot.generation(), 1, "the count outlives the child");
    assert_eq!(slot.running_gen(), None, "but nothing runs once empty");

    slot.install(8);
    assert_eq!(slot.running_gen(), Some(2), "each install keeps counting up");
    assert_eq!(slot.reap(), Some(8));
}

#[test]
fn probe_and_peek_see_an_exited_child_without_taking_it() {
    let mut slot: ChildSlot<u32> = ChildSlot::new();
    slot.install(7);

    assert_eq!(slot.probe(true), (true, true), "present and exited");
    assert_eq!(slot.probe(false), (true, false), "present and alive");
    assert_eq!(slot.child(), Some(&7), "the child can be looked at");
    assert!(slot.is_running(), "looking never takes the child out of the slot");
    let _ = slot.reap();
}
