//! The Caps Lock key, dictation, and changes of the settings.

use dontspeakd::config::{
    DiarizerProvider, HandsFree, ListenMode, Provider, SttEngine, TtsEngine, TtsModel, VoiceConfig,
};
use dontspeakd::config_gate::DEFAULT_LONG_PRESS_MS;
use dontspeakd::engine::gesture::{
    caps_tap_action, tap_decision, CapsEdge, CapsTap, GestureState, PressState, TapAction,
    DOUBLE_TAP_MS,
};
use dontspeakd::engine::machine::{Effect, Engine, Observed, ReloadProbe};
use dontspeakd::engine::paste::{dictation_preview, refusal_live, FinalState, PasteBuf};

#[test]
fn refusal_live_tracks_the_deadline() {
    let now: u64 = 1000;
    assert!(!refusal_live(None, now));
    assert!(refusal_live(Some(now + 10), now));
    assert!(!refusal_live(Some(now - 1), now));
    assert!(!refusal_live(Some(now), now));
}

#[test]
fn tap_decision_immediate_when_not_speaking() {
    let now: u64 = 1000;
    let w: u64 = 280;
    assert_eq!(tap_decision(false, None, now, w), TapAction::Immediate);
    assert_eq!(tap_decision(false, Some(now), now, w), TapAction::Immediate);
}

#[test]
fn tap_decision_defers_then_skips_while_speaking() {
    let t0: u64 = 1000;
    let w: u64 = 280;
    assert_eq!(tap_decision(true, None, t0, w), TapAction::Defer);
    assert_eq!(tap_decision(true, Some(t0), t0 + 100, w), TapAction::Skip);
    assert_eq!(tap_decision(true, Some(t0), t0 + w, w), TapAction::Skip);
    assert_eq!(tap_decision(true, Some(t0), t0 + 281, w), TapAction::Defer);
}

#[test]
fn caps_tap_action_is_pause_resume_in_both_modes() {
    assert_eq!(caps_tap_action(true, true, false, false), CapsTap::StartRecord);
    assert_eq!(caps_tap_action(true, true, true, false), CapsTap::StopRecord);
    assert_eq!(caps_tap_action(true, true, false, true), CapsTap::StartRecord);
    assert_eq!(caps_tap_action(true, true, true, true), CapsTap::StopRecord);

    for ready in [false, true] {
        assert_eq!(caps_tap_action(false, ready, false, false), CapsTap::PauseVoice);
        assert_eq!(caps_tap_action(false, ready, false, true), CapsTap::ResumeVoice);
        assert_eq!(caps_tap_action(false, ready, true, false), CapsTap::PauseVoice);
        assert_eq!(caps_tap_action(false, ready, true, true), CapsTap::ResumeVoice);
    }
}

#[test]
fn caps_tap_action_refuses_on_but_not_ready_without_touching_the_voice() {
    assert_eq!(caps_tap_action(true, false, false, false), CapsTap::Refused);
    assert_eq!(caps_tap_action(true, false, false, true), CapsTap::Refused);
    assert_eq!(caps_tap_action(true, false, true, false), CapsTap::StopRecord);
    assert_eq!(caps_tap_action(true, false, true, true), CapsTap::StopRecord);
}

#[test]
fn dictation_preview_gates_the_landed_final_on_caps_held() {
    assert_eq!(
        dictation_preview(&FinalState::Ready("hello world".into()), "hel", false),
        ("hello world".to_string(), true)
    );
    assert_eq!(
        dictation_preview(&FinalState::Ready("hello world".into()), "hel", true),
        ("hel".to_string(), false)
    );
    assert_eq!(
        dictation_preview(&FinalState::Idle, "part", false),
        ("part".to_string(), false)
    );
    assert_eq!(
        dictation_preview(&FinalState::Idle, "part", true),
        ("part".to_string(), false)
    );
    assert_eq!(
        dictation_preview(&FinalState::Empty, "", false),
        (String::new(), true)
    );
}

#[test]
fn dictation_preview_armed_bridges_the_async_final_gap() {
    assert_eq!(
        dictation_preview(&FinalState::Armed, "the last thing you said", false),
        ("the last thing you said".to_string(), true)
    );
    assert_eq!(
        dictation_preview(&FinalState::Armed, "the last thing you said", true),
        ("the last thing you said".to_string(), false)
    );
}

#[test]
fn paste_buf_arm_does_not_downgrade_a_landed_final() {
    let mut p = PasteBuf { final_state: FinalState::Ready("landed".into()), ..PasteBuf::new() };
    p.arm();
    assert_eq!(p.final_state, FinalState::Ready("landed".into()));
    p.final_state = FinalState::Empty;
    p.arm();
    assert_eq!(
        p.final_state,
        FinalState::Empty,
        "an early empty final must survive the arm so the tick still disarms on it"
    );
    p.final_state = FinalState::Idle;
    p.arm();
    assert_eq!(p.final_state, FinalState::Armed);
}

#[test]
fn paste_buf_disarm_clears_armed_and_empty_but_leaves_ready() {
    let mut p = PasteBuf { final_state: FinalState::Armed, ..PasteBuf::new() };
    p.disarm();
    assert_eq!(p.final_state, FinalState::Idle);
    p.final_state = FinalState::Empty;
    p.disarm();
    assert_eq!(p.final_state, FinalState::Idle);
    p.final_state = FinalState::Ready("kept".into());
    p.disarm();
    assert_eq!(p.final_state, FinalState::Ready("kept".into()));
}

// ── The engine on a machine that only remembers ──────────────────────────────

/// Settings under which the agent's own dictation is driven.
fn config() -> VoiceConfig {
    VoiceConfig {
        caps: true,
        stt: Some(SttEngine::ClaudeCode),
        stt_provider: Provider::OrtCpu,
        tts: Some(TtsEngine::BuiltIn),
        tts_provider: Provider::OrtCpu,
        tts_model: TtsModel::Kokoro,
        tts_model_full_duplex: true,
        full_duplex: false,
        long_press_ms: 600,
        listen_mode: ListenMode::PushToTalk,
        submit_confirm_ms: 1000,
        endpoint_silence_ms: 700,
        paste_submit_delay_ms: 0,
        double_tap_submits: false,
        clears_current: true,
        clears_other: false,
        pause_in_background: false,
        diarization: false,
        diarizer: DiarizerProvider::Fluid,
        speaker_lock: false,
    }
}

fn words() -> HandsFree {
    HandsFree {
        start: "computer".to_string(),
        submit: "submit".to_string(),
        cancel: "cancel".to_string(),
    }
}

/// A machine that carries out what the engine decides.
struct Rig {
    e: Engine,
    now: u64,
    caps_down: bool,
    event_driven: bool,
    terminal_front: bool,
    paste_target: bool,
    speaking: bool,
    stt_loaded: bool,
    defers_paste: bool,
    preflight: bool,
    led: bool,
    led_off: u32,
    starts: u32,
    stops: u32,
    aborts: u32,
    acquired: u32,
    normalized: u32,
    released: u32,
    drained: u32,
    typed: Vec<String>,
    enters: u32,
    paused: u32,
    resumed: u32,
    skipped: u32,
    targets_told: u32,
    listeners: u32,
}

impl Rig {
    fn with(cfg: VoiceConfig, long_press_ms: u64, preflight: bool) -> Rig {
        let mut r = Rig {
            e: Engine::assemble(&cfg, &words(), long_press_ms, preflight),
            now: 10_000,
            caps_down: false,
            event_driven: false,
            terminal_front: true,
            paste_target: false,
            speaking: false,
            stt_loaded: true,
            defers_paste: false,
            preflight,
            led: false,
            led_off: 0,
            starts: 0,
            stops: 0,
            aborts: 0,
            acquired: 0,
            normalized: 0,
            released: 0,
            drained: 0,
            typed: Vec::new(),
            enters: 0,
            paused: 0,
            resumed: 0,
            skipped: 0,
            targets_told: 0,
            listeners: 0,
        };
        r.carry_out();
        r
    }

    fn mk(long_press_ms: u64) -> Rig {
        Rig::with(config(), long_press_ms, true)
    }

    /// A machine whose helper hands over a final text to be pasted.
    fn deferring(double_tap_submits: bool) -> Rig {
        let cfg = VoiceConfig { stt: Some(SttEngine::BuiltIn), double_tap_submits, ..config() };
        let mut r = Rig::with(cfg, 600, true);
        r.defers_paste = true;
        r
    }

    fn seen(&self) -> Observed {
        Observed {
            now: self.now,
            terminal_front: self.terminal_front,
            paste_target: self.paste_target,
            full_duplex: false,
            speaking: self.speaking,
            busy: self.speaking,
            stt_loaded: self.stt_loaded,
            system_ready: false,
            defers_paste: self.defers_paste,
            frontmost: None,
            caps_down: self.caps_down,
            event_driven: self.event_driven,
        }
    }

    fn carry_out(&mut self) {
        for fx in self.e.take_effects() {
            match fx {
                Effect::Led(on) => {
                    self.led = on;
                    if !on {
                        self.led_off += 1;
                    }
                }
                Effect::SttStart => self.starts += 1,
                Effect::SttStop => self.stops += 1,
                Effect::SttAbort => self.aborts += 1,
                Effect::AcquireKey => {
                    self.acquired += 1;
                    self.normalized += 1;
                    self.led = false;
                }
                Effect::ReleaseKey => self.released += 1,
                Effect::DrainKey => self.drained += 1,
                Effect::Paste => {
                    let text = self.e.take_paste().expect("a text to paste");
                    self.typed.push(text);
                }
                Effect::PressEnter => self.enters += 1,
                Effect::PauseVoice => self.paused += 1,
                Effect::ResumeVoice => self.resumed += 1,
                Effect::SkipMessage => self.skipped += 1,
                Effect::ExtraTargets => self.targets_told += 1,
                Effect::BuildListener => self.listeners += 1,
                _ => {}
            }
        }
    }

    fn tick_edges(&mut self, edges: Vec<CapsEdge>) {
        let o = self.seen();
        self.e.tick(&edges, &o);
        self.carry_out();
    }

    fn tick(&mut self) {
        self.tick_edges(Vec::new());
    }

    fn press(&mut self) {
        self.caps_down = true;
        self.tick();
    }

    fn release(&mut self) {
        self.caps_down = false;
        self.tick();
    }

    fn tap(&mut self) {
        self.press();
        self.release();
    }

    fn hold(&mut self) {
        self.press();
        self.now += 12;
        self.tick();
        self.release();
    }

    fn lapse(&mut self) {
        self.now += DOUBLE_TAP_MS + 1;
    }

    fn start(&mut self) {
        let o = self.seen();
        self.e.start_recording(&o);
        self.carry_out();
    }

    fn reload(&mut self, cfg: &VoiceConfig) {
        let probe = ReloadProbe { preflight: self.preflight, local_stt: false };
        self.e.reload(cfg, &words(), probe);
        self.carry_out();
    }

    fn land(&mut self, text: &str) {
        self.e.shared_mut().paste.final_state = FinalState::Ready(text.to_string());
    }

    fn armed(&self) -> bool {
        matches!(self.e.gesture(), GestureState::ConfirmArmed { .. })
    }
}

#[test]
fn caps_tap_pauses_then_resumes_with_dictation_off() {
    let mut d = Rig::with(VoiceConfig { stt: None, ..config() }, 600, true);
    d.tap();
    assert!(d.e.voice_paused(), "first tap pauses the voice");
    assert!(!d.e.is_recording(), "dictation off: the mic never opens");
    d.tap();
    assert!(!d.e.voice_paused(), "second tap resumes the voice");
    assert_eq!((d.paused, d.resumed), (1, 1));
}

#[test]
fn refused_start_on_but_not_ready_never_pauses_the_voice() {
    let mut d = Rig::with(VoiceConfig { stt: Some(SttEngine::BuiltIn), ..config() }, 600, true);
    d.stt_loaded = false;
    d.tap();
    assert!(!d.e.is_recording(), "not ready: the mic must not open");
    assert!(!d.e.voice_paused(), "a refused start must not flip the pause latch");
    assert_eq!(d.paused, 0, "a refused start must not pause the voice");
    assert!(d.e.shared().paste.refused_until.is_some(), "the sign of a refusal is shown");
    d.tap();
    assert!(!d.e.voice_paused() && d.paused == 0 && !d.e.is_recording());
}

#[test]
fn cancel_all_clears_state_silences_and_drives_led_off() {
    let mut d = Rig::mk(600);
    d.start();
    d.led = true;
    d.e.cancel_all();
    d.carry_out();
    assert!(!d.e.is_recording(), "recording state cleared");
    assert_eq!(d.aborts, 1, "aborted the active dictation");
    assert!(!d.led, "LED driven off");
}

#[test]
fn caps_held_mirrored_and_suppresses_finalized_transcript() {
    let mut d = Rig::mk(600);
    d.land("discard me");
    d.press();
    {
        let p = &d.e.shared().paste;
        assert!(p.caps_held, "down edge mirrors caps_held=true");
        let (text, awaiting) = dictation_preview(&p.final_state, &p.partial, p.caps_held);
        assert!(!awaiting, "held: finalized transcript is not surfaced");
        assert_eq!(text, "", "held: shows the partial, not the landed final");
    }
    d.release();
    assert!(!d.e.shared().paste.caps_held, "up edge mirrors caps_held=false");
}

#[test]
fn press_alone_does_not_start_or_light() {
    let mut d = Rig::mk(600);
    d.press();
    assert!(!d.e.is_recording(), "press alone does not start recording");
    assert!(!d.led, "press alone does not light the LED");
    assert_eq!(d.starts, 0, "no dictation on a press");
}

#[test]
fn tap_starts_dictation_on_release_and_lights() {
    let mut d = Rig::mk(600);
    d.press();
    assert!(!d.e.is_recording(), "not recording until release");
    assert!(!d.led, "dark until release");
    d.release();
    assert!(d.e.is_recording(), "tap starts dictation on release");
    assert!(d.led, "LED lit on release");
    assert_eq!(d.starts, 1, "started once");
    assert_eq!(d.e.press(), PressState::Up, "press latch released");
}

#[test]
fn second_tap_stops_and_extinguishes_on_release_not_press() {
    let mut d = Rig::mk(600);
    d.tap();
    assert!(d.e.is_recording(), "first tap recording");
    d.press();
    assert!(d.e.is_recording(), "still recording while the stop press is held");
    assert!(d.led, "LED stays lit on the stop press-down");
    d.release();
    assert!(!d.e.is_recording(), "second tap stops dictation on release");
    assert!(!d.led, "LED extinguished on release");
    assert_eq!(
        d.e.gesture(),
        GestureState::Idle,
        "a stop that defers nothing lands Idle, never ConfirmArmed"
    );
}

#[test]
fn press_never_flips_the_light_either_direction() {
    let mut d = Rig::mk(600);
    d.led = true;
    d.press();
    assert!(!d.led, "idle press re-asserts the LED off");

    let mut d = Rig::mk(600);
    d.tap();
    assert!(d.e.is_recording() && d.led, "recording, lit");
    d.led = false;
    d.press();
    assert!(d.led, "recording press re-asserts the LED on");
}

#[test]
fn hold_from_idle_cancels_without_recording_or_light() {
    let mut d = Rig::mk(5);
    d.hold();
    assert!(!d.e.is_recording(), "hold never starts recording");
    assert!(!d.led, "hold never lights the LED");
    assert_eq!(d.starts, 0, "no dictation on a hold");
}

#[test]
fn long_press_cancel_from_idle_keeps_led_off_despite_os_latch_toggle() {
    let mut d = Rig::mk(5);
    d.press();
    assert!(!d.led, "no light on the press");
    d.led = true;
    d.now += 12;
    d.tick();
    assert!(!d.e.is_recording(), "cancel from idle never records");
    assert!(!d.led, "LED re-asserted off despite the toggle");
    d.led = true;
    d.tick();
    assert!(!d.led, "stays off while held");
    d.release();
    assert!(!d.e.is_recording() && !d.led, "idle and dark after release");
}

#[test]
fn deferred_tap_while_speaking_still_syncs_the_led_on_start_and_stop() {
    let mut d = Rig::mk(600);
    d.speaking = true;
    d.tap();
    assert!(!d.e.is_recording(), "deferred tap does not start recording yet");
    assert!(!d.led, "LED stays off while the tap is deferred");
    d.lapse();
    d.tick();
    assert!(d.e.is_recording(), "deferred single tap still starts dictation");
    assert!(d.led, "LED must light without a release edge");
    d.tap();
    assert!(d.e.is_recording(), "stop tap deferred: still recording");
    assert!(d.led, "LED still lit while the stop tap is deferred");
    d.lapse();
    d.tick();
    assert!(!d.e.is_recording(), "deferred single tap still stops dictation");
    assert!(!d.led, "LED must go dark on a deferred stop too");
}

#[test]
fn a_double_tap_while_speaking_skips_the_message() {
    let mut d = Rig::mk(600);
    d.speaking = true;
    d.tap();
    d.now += 100;
    d.tap();
    assert_eq!(d.skipped, 1);
    d.lapse();
    d.tick();
    assert!(!d.e.is_recording(), "both taps are used up");
}

#[test]
fn event_driven_drains_a_sub_poll_tap_in_one_tick() {
    let mut d = Rig::mk(600);
    d.event_driven = true;
    let tap_at = |at: u64| {
        vec![CapsEdge { down: true, at }, CapsEdge { down: false, at: at + 5 }]
    };
    d.tick_edges(tap_at(10_000));
    assert!(d.e.is_recording(), "a tap between two looks still starts dictation");
    assert!(d.led, "LED lights on the drained release edge");
    assert_eq!(d.starts, 1);
    assert_eq!(d.e.press(), PressState::Up, "press latch released");
    d.now += 50;
    d.tick_edges(tap_at(10_050));
    assert!(!d.e.is_recording(), "second drained tap stops dictation");
    assert!(!d.led, "LED off after the second drained tap");
}

#[test]
fn hold_while_recording_discards_and_release_does_not_re_toggle() {
    let mut d = Rig::mk(5);
    d.tap();
    assert!(d.e.is_recording());
    d.press();
    d.now += 12;
    d.tick();
    assert!(!d.e.is_recording(), "hold discards the active dictation");
    assert!(!d.led, "LED off after a discard");
    assert_eq!(d.aborts, 1, "aborted once");
    d.tick();
    d.tick();
    assert_eq!(d.aborts, 1, "cancel fires exactly once per press");
    d.release();
    assert!(!d.e.is_recording(), "release after a hold stays idle");
    assert!(!d.led, "still dark after the hold release");
    assert_eq!(d.e.press(), PressState::Up);
    assert_eq!(d.starts, 1, "no new dictation");
}

#[test]
fn deferred_submit_pastes_when_async_final_lands() {
    let mut d = Rig::deferring(false);
    d.paste_target = true;
    d.tap();
    assert!(d.e.is_recording(), "recording");
    d.tap();
    assert!(!d.e.is_recording(), "stopped on release");
    assert!(d.armed(), "deferred submit armed");
    assert!(!d.led, "LED already off on the stop release");
    assert!(d.typed.is_empty(), "nothing pasted while the final is pending");

    d.land("hello world");
    d.lapse();
    d.tick();
    assert_eq!(d.typed, ["hello world"], "pasted once the final landed");
    assert_eq!(d.enters, 1, "single tap: Enter pressed");
    assert!(!d.armed(), "disarmed after the deferred submit");
}

#[test]
fn frontmost_terminal_is_a_paste_target_even_without_ax_focus() {
    let mut d = Rig::mk(600);
    d.e.shared_mut().stt_active = true;
    d.paste_target = false;
    d.terminal_front = true;
    d.tick();
    assert!(d.e.shared().paste.has_paste_target, "a terminal in front is a paste target");
    d.terminal_front = false;
    d.tick();
    assert!(!d.e.shared().paste.has_paste_target, "nothing to paste into");
    d.paste_target = true;
    d.tick();
    assert!(d.e.shared().paste.has_paste_target, "an editable field is a paste target");
}

#[test]
fn deferred_empty_final_disarms_without_pasting() {
    let mut d = Rig::deferring(false);
    d.tap();
    d.tap();
    assert!(d.armed(), "armed");
    d.e.shared_mut().paste.final_state = FinalState::Empty;
    d.lapse();
    d.tick();
    assert!(!d.armed(), "disarmed on an empty final");
    assert_eq!(d.e.shared().paste.final_state, FinalState::Idle);
    assert!(d.typed.is_empty(), "nothing pasted for an empty final");
}

/// A machine whose dictation was stopped by one tap, or by two.
fn arm_stop_tap(double_tap_submits: bool, second_tap: bool) -> Rig {
    let mut d = Rig::deferring(double_tap_submits);
    d.tap();
    d.tap();
    if second_tap {
        d.tap();
    }
    d
}

fn enter_after_paste(d: &Rig) -> Option<bool> {
    match d.e.gesture() {
        GestureState::ConfirmArmed { enter_after_paste, .. } => Some(enter_after_paste),
        _ => None,
    }
}

#[test]
fn deferred_submit_waits_out_the_stop_double_tap_window() {
    let mut d = arm_stop_tap(false, false);
    d.land("fast final");
    d.tick();
    assert!(d.typed.is_empty(), "paste held while the double-tap window is open");
    d.lapse();
    d.tick();
    assert_eq!(d.typed.len(), 1, "pasted once it lapsed");
    assert_eq!(d.enters, 1, "single tap: auto-Enter");
}

#[test]
fn double_tap_on_stop_pastes_without_enter() {
    let mut d = arm_stop_tap(false, true);
    assert_eq!(enter_after_paste(&d), Some(false), "double tap latched insert-only");
    assert!(!d.e.is_recording(), "the second tap did not start a new recording");
    d.land("no enter");
    d.tick();
    assert_eq!(d.typed.len(), 1, "pasted");
    assert_eq!(d.enters, 0, "no Enter on the insert-only double tap");
    assert_eq!(d.e.gesture(), GestureState::Idle, "disarmed after the paste");
}

#[test]
fn double_tap_submits_inverts_a_lone_tap_to_insert_only() {
    let mut d = arm_stop_tap(true, false);
    assert_eq!(enter_after_paste(&d), Some(false), "armed insert-only when inverted");
    d.land("lone tap, inverted");
    d.tick();
    assert!(d.typed.is_empty(), "paste held while the double-tap window is open");
    d.lapse();
    d.tick();
    assert_eq!(d.typed.len(), 1, "pasted once it lapsed");
    assert_eq!(d.enters, 0, "lone tap: insert only");
}

#[test]
fn double_tap_submits_inverts_a_double_tap_to_submit() {
    let mut d = arm_stop_tap(true, true);
    assert_eq!(enter_after_paste(&d), Some(true), "double tap flipped to submit");
    assert!(!d.e.is_recording(), "the second tap did not start a new recording");
    d.land("double tap, inverted");
    d.tick();
    assert_eq!(d.typed.len(), 1, "pasted");
    assert_eq!(d.enters, 1, "double tap submits");
}

#[test]
fn hold_after_stop_cancels_the_pending_paste() {
    let cfg = VoiceConfig { stt: Some(SttEngine::BuiltIn), ..config() };
    let mut d = Rig::with(cfg, 10, true);
    d.defers_paste = true;
    d.tap();
    d.tap();
    d.land("discard me");
    d.hold();
    assert!(!d.armed(), "cancel disarmed the deferred submit");
    assert_eq!(d.e.shared().paste.final_state, FinalState::Idle);
    d.lapse();
    d.tick();
    assert!(d.typed.is_empty(), "nothing pasted");
    assert_eq!(d.enters, 0, "and no Enter");
}

#[test]
fn double_tap_on_stop_consumes_the_second_tap_and_preserves_the_transcript() {
    let mut d = Rig::deferring(false);
    d.tap();
    d.tap();
    d.tap();
    assert!(!d.e.is_recording(), "the second tap did not start a new recording");
    d.land("kept");
    d.tick();
    assert_eq!(d.typed, ["kept"], "transcript pasted, not destroyed");
    assert_eq!(d.enters, 0, "double tap on stop is insert-only");
}

#[test]
fn tap_after_the_window_starts_a_new_recording_and_drops_the_paste() {
    let mut d = Rig::deferring(false);
    d.tap();
    d.tap();
    d.land("late");
    d.lapse();
    d.press();
    assert!(d.typed.is_empty(), "no paste under an in-flight press");
    d.release();
    assert!(d.e.is_recording(), "tap after the window starts a new recording");
    assert_eq!(d.e.shared().paste.final_state, FinalState::Idle);
    d.tick();
    assert!(d.typed.is_empty(), "never pasted");
    assert_eq!(d.enters, 0, "never submitted");
}

#[test]
fn enter_waits_for_the_pause_after_a_paste() {
    let cfg = VoiceConfig {
        stt: Some(SttEngine::BuiltIn),
        paste_submit_delay_ms: 80,
        ..config()
    };
    let mut d = Rig::with(cfg, 600, true);
    d.defers_paste = true;
    d.tap();
    d.tap();
    d.land("text");
    d.lapse();
    d.tick();
    assert_eq!((d.typed.len(), d.enters), (1, 0));
    d.now += 79;
    d.tick();
    assert_eq!(d.enters, 0);
    d.now += 1;
    d.tick();
    assert_eq!(d.enters, 1);
}

// ── Changes of the settings ──────────────────────────────────────────────────

#[test]
fn reload_clears_state_aborts_inflight_and_drives_led_off() {
    let mut d = Rig::mk(600);
    d.start();
    d.led_off = 0;
    d.reload(&VoiceConfig { stt: None, ..config() });
    assert!(!d.e.is_recording(), "recording cleared after engine-changing reload");
    assert_eq!(d.aborts, 1, "in-flight dictation released via abort");
    assert_eq!(d.led_off, 1, "reload must drive the LED off when it ends a recording");
}

#[test]
fn reload_noop_change_preserves_inflight_hold() {
    let mut d = Rig::mk(600);
    d.start();
    d.reload(&VoiceConfig { clears_other: true, ..config() });
    assert!(d.e.is_recording(), "a change of something else must not drop the dictation");
    assert_eq!(d.aborts, 0);
    assert!(d.e.cfg().clears_other, "new settings recorded");
}

#[test]
fn reload_caps_toggle_off_ends_hold() {
    let mut d = Rig::mk(600);
    d.start();
    d.reload(&VoiceConfig { caps: false, ..config() });
    assert!(!d.e.caps_enabled(), "caps loop disabled");
    assert!(!d.e.is_recording(), "dictation ended when caps disabled meanwhile");
    assert_eq!(d.aborts, 1);
}

#[test]
fn reload_caps_toggle_bumps_status_gate_only_on_real_transition() {
    let off = VoiceConfig { caps: false, ..config() };
    let mut d = Rig::with(off, 600, true);
    assert_eq!(d.e.shared().gate.seq(), 0);
    d.reload(&config());
    assert!(d.e.caps_enabled(), "caps loop turned on");
    let seq_after_on = d.e.shared().gate.seq();
    assert_ne!(seq_after_on, 0, "a real transition bumps the counter");
    d.reload(&config());
    assert_eq!(d.e.shared().gate.seq(), seq_after_on, "no second bump");
    d.reload(&off);
    assert!(!d.e.caps_enabled(), "caps loop turned off");
    assert_ne!(d.e.shared().gate.seq(), seq_after_on, "a real transition bumps the counter again");
}

#[test]
fn assemble_acquires_the_caps_key_only_when_starting_enabled() {
    let d = Rig::mk(600);
    assert!(d.e.caps_enabled(), "starts enabled");
    assert_eq!(d.acquired, 1, "acquired once at construction");
    assert_eq!(d.normalized, 1, "normalized once at construction");
    assert_eq!(d.released, 0, "nothing to release at construction");
}

#[test]
fn assemble_does_not_acquire_the_caps_key_when_starting_disabled() {
    let d = Rig::with(config(), 600, false);
    assert!(!d.e.caps_enabled(), "leave denied: starts off");
    assert_eq!(d.acquired, 0, "must never acquire when starting disabled");
    assert_eq!(d.normalized, 0);
    assert_eq!(d.released, 0);
}

#[test]
fn reload_caps_toggle_acquires_and_releases_the_physical_key_on_real_transitions_only() {
    let mut d = Rig::mk(600);
    assert_eq!(d.acquired, 1, "acquired at construction");
    let off = VoiceConfig { caps: false, ..config() };
    d.reload(&off);
    assert!(!d.e.caps_enabled());
    assert_eq!((d.released, d.acquired), (1, 1), "off releases the key");
    d.reload(&off);
    assert_eq!(d.released, 1, "unchanged off doesn't release again");
    d.reload(&config());
    assert!(d.e.caps_enabled());
    assert_eq!((d.released, d.acquired), (1, 2), "on acquires it again");
    assert_eq!(d.normalized, 2, "startup and OFF->ON acquisition both normalize Caps Lock");
}

#[test]
fn caps_gate_off_clears_a_stale_in_flight_press_latch_and_forces_the_led_off() {
    let mut d = Rig::mk(600);
    d.press();
    assert!(matches!(d.e.press(), PressState::Down { .. }));
    d.led_off = 0;
    d.reload(&VoiceConfig { caps: false, ..config() });
    assert_eq!(d.e.press(), PressState::Up, "stale press latch cleared on release");
    assert_eq!(d.led_off, 1, "LED forced off when the key is released");
}

#[test]
fn tick_discards_a_queued_backlog_while_always_listen_mode_bypasses_the_gesture() {
    let mut d = Rig::with(VoiceConfig { listen_mode: ListenMode::Always, ..config() }, 600, true);
    d.event_driven = true;
    d.tick_edges(vec![
        CapsEdge { down: true, at: 10_000 },
        CapsEdge { down: false, at: 10_005 },
    ]);
    assert_eq!(d.drained, 1, "queued movements are dropped");
    assert!(!d.e.is_recording(), "and never applied as a gesture");
}

#[test]
fn reload_engine_swap_mid_hold_clears_recording_icon() {
    let mut d = Rig::mk(600);
    d.start();
    d.e.shared_mut().stt_active = true;
    d.land("stale");
    d.reload(&VoiceConfig { stt: None, ..config() });
    assert!(!d.e.is_recording(), "dictation ended on engine swap");
    assert!(!d.e.shared().stt_active, "recording sign cleared on the swap");
    assert_eq!(d.e.shared().paste.final_state, FinalState::Idle, "stale preview cleared");
}

#[test]
fn reload_applies_long_press_and_normalizes_zero() {
    let mut d = Rig::mk(600);
    d.reload(&VoiceConfig { long_press_ms: 900, ..config() });
    assert_eq!(d.e.long_press_ms(), 900, "explicit long_press applied");
    d.reload(&VoiceConfig { long_press_ms: 0, ..config() });
    assert_eq!(d.e.long_press_ms(), DEFAULT_LONG_PRESS_MS, "zero stands for the default");
}

#[test]
fn reload_pushes_extra_paste_target_lists_to_the_platform() {
    let mut d = Rig::mk(600);
    assert_eq!(d.targets_told, 1, "told at construction");
    d.reload(&config());
    assert_eq!(d.targets_told, 2, "and again with every change");
}

#[test]
fn reload_while_idle_does_not_abort() {
    let mut d = Rig::mk(600);
    d.led_off = 0;
    assert!(!d.e.is_recording());
    d.reload(&config());
    assert_eq!(d.aborts, 0, "idle reload aborts nothing");
    assert_eq!(d.led_off, 0, "idle reload leaves the LED alone");
}

#[test]
fn refresh_caps_gate_reacts_to_live_ax_trust_changes() {
    let mut d = Rig::mk(600);
    assert!(d.e.caps_enabled(), "starts enabled");
    let seq0 = d.e.shared().gate.seq();
    d.e.refresh_caps_gate(false);
    assert!(!d.e.caps_enabled(), "leave revoked: caps disabled live");
    assert_ne!(d.e.shared().gate.seq(), seq0, "status gate bumped on the off transition");
    let seq1 = d.e.shared().gate.seq();
    d.e.refresh_caps_gate(false);
    assert_eq!(d.e.shared().gate.seq(), seq1, "no change does not bump the counter");
    d.e.refresh_caps_gate(true);
    assert!(d.e.caps_enabled(), "leave granted again: caps enabled live");
    assert_ne!(d.e.shared().gate.seq(), seq1, "status gate bumped on the on transition");
}

#[test]
fn reload_always_mode_lifecycle_builds_bypasses_caps_and_tears_down_on_exit() {
    let mut d = Rig::mk(600);
    assert!(!d.e.has_listener(), "starts without a listener");
    d.start();
    d.reload(&VoiceConfig { listen_mode: ListenMode::Always, ..config() });
    assert!(d.e.has_listener(), "entering Always mode builds the listener");
    assert!(!d.e.is_recording(), "in-flight dictation torn down when Always takes over");
    let starts = d.starts;
    d.press();
    assert_eq!(d.e.press(), PressState::Up, "the key is not followed in Always mode");
    d.release();
    assert_eq!(d.starts, starts, "the key starts nothing in Always mode");
    d.start();
    d.reload(&config());
    assert!(!d.e.has_listener(), "leaving Always mode drops the listener");
    assert!(!d.e.is_recording(), "leaving Always tears down any dictation");
}

#[test]
fn reload_always_mode_rebuilds_the_listener_on_a_live_stt_provider_switch() {
    let always = VoiceConfig {
        listen_mode: ListenMode::Always,
        stt: Some(SttEngine::BuiltIn),
        ..config()
    };
    let mut d = Rig::mk(600);
    d.reload(&always);
    assert_eq!(d.listeners, 1);
    d.reload(&always);
    assert_eq!(d.listeners, 1, "nothing changed");
    d.reload(&VoiceConfig { stt_provider: Provider::OrtCuda, ..always });
    assert!(d.e.has_listener(), "Always mode stays on across the reload");
    assert_eq!(d.listeners, 2, "a live provider switch rebuilds the listener");
}

#[test]
fn shutdown_leaves_nothing_behind() {
    let mut d = Rig::mk(600);
    d.tap();
    assert!(d.e.is_recording() && d.led);
    d.e.shutdown();
    d.carry_out();
    assert!(!d.e.is_recording() && !d.led);
    assert_eq!(d.aborts, 1);
    assert!(d.released >= 1, "the key is given back");
    assert!(!d.e.caps_enabled());
}
