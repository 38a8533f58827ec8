//! Hands-free dictation: the microphone, the turn and what is shown of it.

use dontspeakd::listen::{TurnAction, TurnLogic};
use dontspeakd::listener::{
    frame_ms, is_current, passed_on, CaptureEvent, ListenEffect, Listener, ListenerEvent,
    ListenerShared, MicGate, Recorder, FALLBACK_DT_MS,
};

fn turn() -> TurnLogic {
    TurnLogic::new("computer", "submit", "cancel", 1000)
}

#[test]
fn sync_pill_mirrors_capturing_edge_and_bumps_gate_once() {
    let mut shared = ListenerShared::new();

    // Idle: no transition, the counter is untouched.
    Listener::new(true, turn(), 0).sync_pill(&mut shared, None);
    assert_eq!(shared.gate.seq(), 0);
    assert!(!shared.stt_active);

    // The start word opens the turn.
    let mut open = turn();
    open.on_segment("hey computer add a button");
    assert!(open.capturing());
    let l = Listener::new(true, open, 0);
    l.sync_pill(&mut shared, Some("term"));
    assert!(shared.stt_active);
    assert_eq!(shared.gate.seq(), 1, "capturing edge bumps the counter once");
    assert_eq!(shared.paste.partial, "add a button");
    assert_eq!(shared.paste.target.as_deref(), Some("term"));

    // Still capturing: no second bump.
    l.sync_pill(&mut shared, Some("other"));
    assert_eq!(shared.gate.seq(), 1);
    assert_eq!(shared.paste.target.as_deref(), Some("term"));

    // Cancel closes the turn.
    let mut closed = turn();
    closed.on_segment("hey computer add a button");
    closed.on_segment("cancel");
    closed.on_tick(1000);
    assert!(!closed.capturing());
    Listener::new(true, closed, 0).sync_pill(&mut shared, None);
    assert!(!shared.stt_active);
    assert_eq!(shared.gate.seq(), 2, "idle edge bumps the counter once more");
    assert_eq!(shared.paste.partial, "");
}

#[test]
fn exec_always_pastes_submit_regardless_of_focus() {
    let mut l = Listener::new(true, turn(), 0);
    let mut fx: Vec<ListenEffect> = Vec::new();
    l.exec(TurnAction::SubmitText("hello".into()), false, false, 0, &mut fx);
    l.exec(TurnAction::SubmitText("hello".into()), false, false, 1, &mut fx);
    let typed = fx.iter().filter(|e| **e == ListenEffect::Type("hello".into())).count();
    let entered = fx.iter().filter(|e| **e == ListenEffect::PressEnter).count();
    assert_eq!(typed, 2);
    assert_eq!(entered, 2);
}

#[test]
fn exec_cancel_is_always_a_noop() {
    let mut l = Listener::new(true, turn(), 0);
    let mut fx: Vec<ListenEffect> = Vec::new();
    l.exec(TurnAction::Cancel, false, false, 0, &mut fx);
    assert!(fx.is_empty());
}

#[test]
fn gate_off_is_a_noop_without_an_open_capture() {
    let mut l = Listener::new(false, turn(), 0);
    l.gate_off();
    assert_eq!(l.mic(), None);
    let mut l = Listener::new(true, turn(), 0);
    let before = l.mic();
    l.gate_off();
    assert_eq!(l.mic(), before, "a closed microphone stays as it is");
}

/// Ticks a listener with nothing to silence, and gives what it calls for.
fn tick(
    l: &mut Listener,
    shared: &mut ListenerShared,
    busy: bool,
    now: u64,
    events: Vec<ListenerEvent>,
) -> Vec<ListenEffect> {
    l.tick(shared, busy, true, false, now, Some("term"), &events)
}

#[test]
fn a_spoken_turn_is_typed_and_submitted() {
    let mut shared = ListenerShared::new();
    let mut l = Listener::new(true, turn(), 50);
    assert!(tick(&mut l, &mut shared, false, 0, Vec::new()).is_empty());
    let mic = l.mic().expect("a microphone");
    assert!(mic.enabled);
    let say = |text: &str| ListenerEvent::Segment { epoch: mic.epoch, text: text.to_string() };
    let wait = |dt_ms: u64| ListenerEvent::Tick { epoch: mic.epoch, dt_ms };
    let heard = vec![say("computer fix the bug"), say("submit")];
    assert!(tick(&mut l, &mut shared, false, 10, heard).is_empty());
    assert!(shared.stt_active);
    let fx = tick(&mut l, &mut shared, false, 20, vec![wait(1000)]);
    assert_eq!(
        fx,
        vec![
            ListenEffect::Type("fix the bug".to_string()),
            ListenEffect::CancelSpeech { current: true, other: false },
        ]
    );
    assert!(!shared.stt_active);
    assert!(tick(&mut l, &mut shared, true, 69, Vec::new()).is_empty(), "the pause is not over");
    let fx = tick(&mut l, &mut shared, true, 70, Vec::new());
    assert!(fx.contains(&ListenEffect::PressEnter), "Enter comes although speech began");
}

#[test]
fn the_voice_is_never_heard() {
    let mut shared = ListenerShared::new();
    let mut l = Listener::new(true, turn(), 0);
    let _ = tick(&mut l, &mut shared, false, 0, Vec::new());
    let epoch = l.mic().unwrap().epoch;
    let heard = vec![ListenerEvent::Segment { epoch, text: "computer stop".to_string() }];
    assert!(tick(&mut l, &mut shared, true, 10, heard).is_empty());
    assert!(!l.mic().unwrap().enabled);
    assert!(!shared.stt_active);
    let _ = tick(&mut l, &mut shared, false, 20, Vec::new());
    let late = vec![ListenerEvent::Segment { epoch, text: "computer stop".to_string() }];
    let _ = tick(&mut l, &mut shared, false, 30, late);
    assert!(!shared.stt_active, "what an earlier opening recorded is dropped");
}

#[test]
fn a_recorder_follows_the_gate() {
    let mut gate = MicGate::new();
    gate.set_enabled(true);
    let mut r = Recorder::new(gate.epoch, 700);
    assert!(r.follow(gate));
    assert_eq!(r.sound(true, 100), CaptureEvent::SpeechOnset { epoch: gate.epoch });
    assert_eq!(r.sound(true, 100), CaptureEvent::Tick { epoch: gate.epoch, dt_ms: 100 });
    assert_eq!(r.sound(false, 700), CaptureEvent::Segment { epoch: gate.epoch });
    assert_eq!(
        r.nothing(),
        CaptureEvent::Tick { epoch: gate.epoch, dt_ms: FALLBACK_DT_MS }
    );
    gate.set_enabled(false);
    assert!(!r.follow(gate));
    gate.set_enabled(true);
    assert!(!r.follow(gate), "a reopened microphone starts afresh");
    assert!(r.follow(gate));
}

#[test]
fn the_length_of_a_frame() {
    assert_eq!(frame_ms(1600, 16_000), 100);
    assert_eq!(frame_ms(1599, 16_000), 99);
}

#[test]
fn a_pause_that_is_set_later_counts_for_the_next_submit() {
    let mut l = Listener::new(true, turn(), 0);
    l.set_paste_submit_delay_ms(200);
    let mut fx: Vec<ListenEffect> = Vec::new();
    l.exec(TurnAction::SubmitText("hello".into()), false, false, 1000, &mut fx);
    assert!(!fx.contains(&ListenEffect::PressEnter), "Enter waits");
    let mut shared = ListenerShared::new();
    let events: Vec<ListenerEvent> = Vec::new();
    let early = l.tick(&mut shared, false, false, false, 1199, None, &events);
    assert!(!early.contains(&ListenEffect::PressEnter));
    let due = l.tick(&mut shared, false, false, false, 1200, None, &events);
    assert!(due.contains(&ListenEffect::PressEnter));
}

#[test]
fn what_an_earlier_opening_recorded_is_not_transcribed() {
    let segment = CaptureEvent::Segment { epoch: 3 };
    assert!(is_current(segment, 3));
    assert!(!is_current(segment, 4));
    assert_eq!(
        passed_on(segment, "hello".into()),
        ListenerEvent::Segment { epoch: 3, text: "hello".into() }
    );
    assert_eq!(
        passed_on(CaptureEvent::Tick { epoch: 3, dt_ms: 30 }, String::new()),
        ListenerEvent::Tick { epoch: 3, dt_ms: 30 }
    );
}
