//! What holds of dictation whatever happens.

use crate::config::{HandsFreeView, ListenMode, VoiceConfig};
use crate::engine::gesture::{pairs_with, CapsEdge, GestureState, PressState, DOUBLE_TAP_MS};
use crate::engine::machine::{
    assembled, backlog_dropped, cancelled, confirmed, disarmed, edge_applied, edges_applied, emit,
    entered, gated, helper_followed, hold_checked, key_followed, listener_followed, mic_aborted,
    pending_enter_checked, pending_tap_checked, ready, recording, recording_started,
    recording_stopped, refused, reloaded, settings_taken, shut_down, status_published, stt_changed,
    stt_followed, submit_checked, submit_held, submits, submitted, synced, tapped, text_taken,
    tick_begun, ticked, toggled, torn_down, with_paste, Effect, EngineView, Observed, ReloadProbe,
};
use crate::engine::paste::{deposited, FinalView, PasteView};
use crate::status::CapsKind;
use vstd::prelude::*;

verus! {

// ── What the caller sees ─────────────────────────────────────────────────────

/// The light of the key once everything was done, from how it was.
pub open spec fn led_after(fx: Seq<Effect>, at_first: bool) -> bool
    decreases fx.len(),
{
    if fx.len() == 0 {
        at_first
    } else {
        match fx.last() {
            Effect::Led(on) => on,
            _ => led_after(fx.drop_last(), at_first),
        }
    }
}

/// Whether the microphone is open once everything was done, from how it was.
pub open spec fn mic_after(fx: Seq<Effect>, at_first: bool) -> bool
    decreases fx.len(),
{
    if fx.len() == 0 {
        at_first
    } else {
        match fx.last() {
            Effect::SttStart => true,
            Effect::SttStop | Effect::SttAbort => false,
            _ => mic_after(fx.drop_last(), at_first),
        }
    }
}

/// Whether the engine holds the key once everything was done, from how it was.
pub open spec fn key_after(fx: Seq<Effect>, at_first: bool) -> bool
    decreases fx.len(),
{
    if fx.len() == 0 {
        at_first
    } else {
        match fx.last() {
            Effect::AcquireKey => true,
            Effect::ReleaseKey => false,
            _ => key_after(fx.drop_last(), at_first),
        }
    }
}

/// How the light, the microphone and the key are before anything is done.
pub struct Outside {
    pub led: bool,
    pub mic: bool,
    pub key: bool,
}

/// What the engine believes is what is: the light is on and the microphone open exactly
/// while a dictation is recorded, the key is held exactly while it drives dictation, and
/// a dictation that is recorded is shown as such and has something to transcribe it.
pub open spec fn faithful(v: EngineView, w: Outside) -> bool {
    &&& led_after(v.fx, w.led) == recording(v)
    &&& mic_after(v.fx, w.mic) == recording(v)
    &&& key_after(v.fx, w.key) == v.caps_enabled
    &&& recording(v) ==> v.shared.stt_active && v.cfg.stt is Some
}

broadcast proof fn lemma_led_push(fx: Seq<Effect>, e: Effect, at_first: bool)
    ensures
        #[trigger] led_after(fx.push(e), at_first) == (match e {
            Effect::Led(on) => on,
            _ => led_after(fx, at_first),
        }),
{
    assert(fx.push(e).drop_last() =~= fx);
}

broadcast proof fn lemma_mic_push(fx: Seq<Effect>, e: Effect, at_first: bool)
    ensures
        #[trigger] mic_after(fx.push(e), at_first) == (match e {
            Effect::SttStart => true,
            Effect::SttStop | Effect::SttAbort => false,
            _ => mic_after(fx, at_first),
        }),
{
    assert(fx.push(e).drop_last() =~= fx);
}

broadcast proof fn lemma_key_push(fx: Seq<Effect>, e: Effect, at_first: bool)
    ensures
        #[trigger] key_after(fx.push(e), at_first) == (match e {
            Effect::AcquireKey => true,
            Effect::ReleaseKey => false,
            _ => key_after(fx, at_first),
        }),
{
    assert(fx.push(e).drop_last() =~= fx);
}

broadcast group group_pushes {
    lemma_led_push,
    lemma_mic_push,
    lemma_key_push,
}

/// The engine begins faithful: the light is off, the microphone closed, and the key held
/// only where it drives dictation.
pub proof fn law_faithful_at_first(
    cfg: VoiceConfig,
    hf: HandsFreeView,
    long_press_ms: u64,
    preflight: bool,
)
    ensures
        faithful(
            assembled(cfg, hf, long_press_ms, preflight),
            Outside { led: false, mic: false, key: false },
        ),
{
    broadcast use group_pushes;

    let told = seq![Effect::ExtraTargets];
    assert(told =~= Seq::<Effect>::empty().push(Effect::ExtraTargets));
}

proof fn lemma_torn_down(v: EngineView, w: Outside)
    requires
        faithful(v, w),
    ensures
        faithful(torn_down(v), w),
        torn_down(v).gesture is Idle,
        torn_down(v).cfg == v.cfg,
{
    broadcast use group_pushes;

}

proof fn lemma_cancelled(v: EngineView, w: Outside)
    requires
        faithful(v, w),
    ensures
        faithful(cancelled(v), w),
{
    broadcast use group_pushes;

}

proof fn lemma_disarmed(v: EngineView, w: Outside)
    requires
        faithful(v, w),
    ensures
        faithful(disarmed(v), w),
{
    broadcast use group_pushes;

}

proof fn lemma_confirmed(v: EngineView, now: u64, w: Outside)
    requires
        faithful(v, w),
    ensures
        faithful(confirmed(v, now), w),
{
    broadcast use group_pushes;

    let a = text_taken(v);
    let b = match v.shared.paste.final_state {
        FinalView::Ready(text) => {
            let pasted = emit(EngineView { outbox: Some(text), ..a }, Effect::Paste);
            assert(faithful(pasted, w));
            if submits(v) {
                submitted(pasted, now)
            } else {
                pasted
            }
        },
        _ => a,
    };
    assert(faithful(b, w));
    lemma_disarmed(b, w);
}

proof fn lemma_toggled(v: EngineView, o: Observed, w: Outside)
    requires
        faithful(v, w),
    ensures
        faithful(toggled(v, o), w),
{
    broadcast use group_pushes;

    let a = if ready(v, o) {
        v
    } else {
        refused(v, o)
    };
    assert(faithful(a, w));
    assert(a.gesture == v.gesture && a.cfg == v.cfg);
    assert(faithful(recording_started(a, o), w));
    assert(faithful(recording_stopped(a, o), w));
}

proof fn lemma_edge(v: EngineView, e: CapsEdge, o: Observed, w: Outside)
    requires
        faithful(v, w),
    ensures
        faithful(edge_applied(v, e, o), w),
{
    broadcast use group_pushes;

    let a = with_paste(
        v,
        PasteView { caps_held: e.down, ..v.shared.paste },
    );
    if !e.down {
        let b = emit(
            EngineView { press: PressState::Up, ..a },
            Effect::Record(CapsKind::Release),
        );
        assert(faithful(b, w));
        lemma_toggled(EngineView { pending_tap_at: None, ..b }, o, w);
        assert(faithful(tapped(b, e.at, o), w));
    }
}

proof fn lemma_edges(v: EngineView, edges: Seq<CapsEdge>, o: Observed, w: Outside)
    requires
        faithful(v, w),
    ensures
        faithful(edges_applied(v, edges, o), w),
    decreases edges.len(),
{
    if edges.len() > 0 {
        lemma_edges(v, edges.drop_last(), o, w);
        lemma_edge(edges_applied(v, edges.drop_last(), o), edges.last(), o, w);
    }
}

proof fn lemma_key_followed(v: EngineView, edges: Seq<CapsEdge>, o: Observed, w: Outside)
    requires
        faithful(v, w),
    ensures
        faithful(key_followed(v, edges, o), w),
{
    if o.event_driven {
        lemma_edges(v, edges, o, w);
    } else {
        let a = EngineView { caps_phys_prev: o.caps_down, ..v };
        lemma_edge(a, CapsEdge { down: o.caps_down, at: o.now }, o, w);
    }
}

proof fn lemma_hold(v: EngineView, now: u64, w: Outside)
    requires
        faithful(v, w),
    ensures
        faithful(hold_checked(v, now), w),
{
    broadcast use group_pushes;

    lemma_cancelled(v, w);
}

proof fn lemma_gated(v: EngineView, on: bool, w: Outside)
    requires
        faithful(v, w),
    ensures
        faithful(gated(v, on), w),
        gated(v, on).cfg == v.cfg,
        !on ==> gated(v, on).gesture is Idle,
        gated(v, on).caps_enabled == on,
{
    broadcast use group_pushes;

    lemma_torn_down(v, w);
}

proof fn lemma_tick_begun(v: EngineView, o: Observed, w: Outside)
    requires
        faithful(v, w),
    ensures
        faithful(tick_begun(v, o), w),
{
    broadcast use group_pushes;

    let a = pending_enter_checked(v, o.now);
    assert(faithful(a, w));
}

proof fn lemma_pending_tap(v: EngineView, o: Observed, w: Outside)
    requires
        faithful(v, w),
    ensures
        faithful(pending_tap_checked(v, o), w),
{
    lemma_toggled(EngineView { pending_tap_at: None, ..v }, o, w);
}

proof fn lemma_submit(v: EngineView, now: u64, w: Outside)
    requires
        faithful(v, w),
    ensures
        faithful(submit_checked(v, now), w),
{
    broadcast use group_pushes;

    lemma_confirmed(v, now, w);
    lemma_disarmed(v, w);
}

proof fn lemma_rest(v: EngineView, e: Effect, o: Observed, w: Outside)
    requires
        faithful(v, w),
        e is ListenerTick,
    ensures
        faithful(backlog_dropped(v, o), w),
        faithful(backlog_dropped(emit(v, e), o), w),
{
    broadcast use group_pushes;

}

/// Every tick keeps the engine faithful: the light and the microphone follow the
/// dictation, whatever the key does.
#[verifier::rlimit(40)]
pub proof fn law_tick_keeps_faith(v: EngineView, edges: Seq<CapsEdge>, o: Observed, w: Outside)
    requires
        faithful(v, w),
    ensures
        faithful(ticked(v, edges, o), w),
{
    lemma_tick_begun(v, o, w);
    let a = tick_begun(v, o);
    if v.cfg.listen_mode == ListenMode::Always || !v.caps_enabled {
        lemma_rest(
            a,
            Effect::ListenerTick {
                busy: o.busy,
                cancel_current: v.cfg.clears_current,
                cancel_other: v.cfg.clears_other,
            },
            o,
            w,
        );
    } else {
        lemma_key_followed(a, edges, o, w);
        let b = key_followed(a, edges, o);
        lemma_hold(b, o.now, w);
        let c = hold_checked(b, o.now);
        lemma_pending_tap(c, o, w);
        lemma_submit(pending_tap_checked(c, o), o.now, w);
    }
}

proof fn lemma_told(v: EngineView, long_press_ms: u64, w: Outside)
    requires
        faithful(v, w),
    ensures
        faithful(emit(EngineView { long_press_ms, ..v }, Effect::ExtraTargets), w),
{
    broadcast use group_pushes;

}

proof fn lemma_stt_followed(v: EngineView, cfg: VoiceConfig, probe: ReloadProbe, w: Outside)
    requires
        faithful(v, w),
    ensures
        faithful(stt_followed(v, cfg, probe), w),
        stt_followed(v, cfg, probe).cfg == v.cfg,
        recording(stt_followed(v, cfg, probe)) ==> !stt_changed(cfg, v.cfg),
{
    broadcast use group_pushes;

    reveal(stt_followed);
    lemma_torn_down(v, w);
}

proof fn lemma_gate_keeps_cfg(v: EngineView, on: bool)
    ensures
        gated(v, on).cfg == v.cfg,
        recording(gated(v, on)) ==> recording(v),
{
}

/// A change of the settings keeps the engine faithful.
pub proof fn law_reload_keeps_faith(
    v: EngineView,
    cfg: VoiceConfig,
    hf: HandsFreeView,
    probe: ReloadProbe,
    w: Outside,
)
    requires
        faithful(v, w),
    ensures
        faithful(reloaded(v, cfg, hf, probe), w),
{
    let long_press_ms = if cfg.long_press_ms == 0 {
        crate::config_gate::DEFAULT_LONG_PRESS_MS
    } else {
        cfg.long_press_ms
    };
    let on = cfg.caps && probe.preflight;
    let a = emit(EngineView { long_press_ms, ..v }, Effect::ExtraTargets);
    lemma_told(v, long_press_ms, w);
    lemma_stt_followed(a, cfg, probe, w);
    let s = stt_followed(a, cfg, probe);
    lemma_gated(s, on, w);
    lemma_gate_keeps_cfg(s, on);
    lemma_helper_and_listener(gated(s, on), v, cfg, hf, probe, w);
}

proof fn lemma_helper_and_listener(
    b: EngineView,
    v: EngineView,
    cfg: VoiceConfig,
    hf: HandsFreeView,
    probe: ReloadProbe,
    w: Outside,
)
    requires
        faithful(b, w),
        b.cfg == v.cfg,
        recording(b) ==> !stt_changed(cfg, v.cfg),
    ensures
        faithful(
            settings_taken(
                listener_followed(
                    helper_followed(b, cfg),
                    cfg.listen_mode == ListenMode::Always,
                    crate::engine::machine::listener_outdated(v, cfg, hf, probe),
                ),
                cfg,
                hf,
            ),
            w,
        ),
{
    broadcast use group_pushes;

    reveal(helper_followed);
    let h = helper_followed(b, cfg);
    assert(faithful(h, w));
    assert(recording(h) == recording(b) && h.cfg == b.cfg);
    lemma_torn_down(h, w);
    reveal(listener_followed);
    let always = cfg.listen_mode == ListenMode::Always;
    let l = listener_followed(
        h,
        always,
        crate::engine::machine::listener_outdated(v, cfg, hf, probe),
    );
    assert(faithful(l, w));
    assert(l.cfg == b.cfg);
    assert(recording(l) ==> recording(b));
    reveal(settings_taken);
}

/// Whatever tears a dictation down keeps the engine faithful: the engine's own reasons,
/// a cancel, and the key that no longer drives dictation.
pub proof fn law_endings_keep_faith(v: EngineView, on: bool, w: Outside)
    requires
        faithful(v, w),
    ensures
        faithful(torn_down(v), w),
        faithful(cancelled(v), w),
        faithful(gated(v, on), w),
{
    lemma_torn_down(v, w);
    lemma_cancelled(v, w);
    lemma_gated(v, on, w);
}

/// An engine that has stopped leaves nothing behind: the light is off, the microphone
/// closed, the key given back, and nothing waits.
pub proof fn law_shutdown_leaves_nothing(v: EngineView, w: Outside)
    requires
        faithful(v, w),
    ensures
        ({
            let s = shut_down(v);
            &&& !led_after(s.fx, w.led)
            &&& !mic_after(s.fx, w.mic)
            &&& !key_after(s.fx, w.key)
            &&& s.gesture is Idle
            &&& s.press is Up
            &&& s.pending_tap_at is None
            &&& s.pending_enter_at is None
            &&& !s.listener
            &&& !s.caps_enabled
        }),
{
    broadcast use group_pushes;

    lemma_torn_down(v, w);
    let a = torn_down(v);
    let b = if a.listener {
        emit(EngineView { listener: false, ..a }, Effect::DropListener)
    } else {
        a
    };
    let c = EngineView {
        pending_tap_at: None,
        pending_enter_at: None,
        press: PressState::Up,
        ..b
    };
    assert(faithful(c, w));
    lemma_gated(c, false, w);
}

// ── The hold ─────────────────────────────────────────────────────────────────

/// A press that is held long enough cancels everything: nothing is recorded, nothing
/// waits, nothing is left to paste, and the voice is silenced. What was said is not
/// typed.
pub proof fn law_hold_cancels_everything(v: EngineView, since: u64, now: u64)
    requires
        v.press == (PressState::Down { since, long_press_fired: false }),
        now.saturating_sub(since) >= v.long_press_ms,
    ensures
        ({
            let a = hold_checked(v, now);
            &&& a.gesture is Idle
            &&& a.pending_tap_at is None
            &&& a.pending_enter_at is None
            &&& a.shared.paste.final_state is Idle
            &&& a.shared.paste.partial.len() == 0
            &&& !a.shared.stt_active
            &&& a.press == (PressState::Down { since, long_press_fired: true })
            &&& a.outbox == v.outbox
            &&& a.fx == v.fx + (if recording(v) {
                seq![Effect::SttAbort]
            } else {
                Seq::empty()
            }) + seq![
                Effect::ClearVoice,
                Effect::BargeOutside,
                Effect::Led(false),
                Effect::Record(CapsKind::Cancel),
                Effect::Led(false),
            ]
        }),
{
}

/// A press cancels once, however long it is held.
pub proof fn law_hold_cancels_once(v: EngineView, later: u64)
    requires
        v.press matches PressState::Down { long_press_fired: true, .. },
    ensures
        hold_checked(v, later) == synced(v),
{
}

/// The release of a press that has cancelled is no tap: dictation stays as it is.
pub proof fn law_release_after_hold_is_no_tap(v: EngineView, at: u64, o: Observed)
    requires
        v.press matches PressState::Down { long_press_fired: true, .. },
    ensures
        ({
            let a = edge_applied(v, CapsEdge { down: false, at }, o);
            &&& a.gesture == v.gesture
            &&& a.pending_tap_at == v.pending_tap_at
            &&& a.voice_paused == v.voice_paused
            &&& a.press is Up
            &&& a.fx == v.fx.push(Effect::Record(CapsKind::Release))
        }),
{
}

/// A press alone does nothing: only its release or its hold does.
pub proof fn law_press_alone_does_nothing(v: EngineView, at: u64, o: Observed)
    ensures
        ({
            let a = edge_applied(v, CapsEdge { down: true, at }, o);
            &&& recording(a) == recording(v)
            &&& (a.gesture is Idle) == (v.gesture is Idle)
            &&& a.shared.paste.final_state == v.shared.paste.final_state
            &&& a.shared.paste.epoch == v.shared.paste.epoch
            &&& a.fx == v.fx.push(Effect::Record(CapsKind::Press))
        }),
{
}

// ── Taps ─────────────────────────────────────────────────────────────────────

/// A second tap that begins soon after the one that ended a dictation flips what happens
/// to its text, and does nothing else: it begins no dictation, and the text stays.
pub proof fn law_second_tap_flips(
    v: EngineView,
    stop_tap_at: Option<u64>,
    pending: bool,
    enter: bool,
    down: u64,
    up: u64,
    o: Observed,
)
    requires
        v.gesture == (GestureState::ConfirmArmed {
            stop_tap_at,
            double_pending: pending,
            enter_after_paste: enter,
        }),
        pairs_with(stop_tap_at, down, DOUBLE_TAP_MS),
    ensures
        ({
            let a = edge_applied(v, CapsEdge { down: true, at: down }, o);
            let b = edge_applied(a, CapsEdge { down: false, at: up }, o);
            let kept = with_paste(v, PasteView { caps_held: false, ..v.shared.paste });
            b == (EngineView {
                gesture: GestureState::ConfirmArmed {
                    stop_tap_at: None,
                    double_pending: false,
                    enter_after_paste: !enter,
                },
                press: PressState::Up,
                fx: v.fx.push(Effect::Record(CapsKind::Press)).push(
                    Effect::Record(CapsKind::Release),
                ),
                ..kept
            })
        }),
{
    let a = edge_applied(v, CapsEdge { down: true, at: down }, o);
    let b = edge_applied(a, CapsEdge { down: false, at: up }, o);
    assert(b =~= EngineView {
        gesture: GestureState::ConfirmArmed {
            stop_tap_at: None,
            double_pending: false,
            enter_after_paste: !enter,
        },
        press: PressState::Up,
        fx: v.fx.push(Effect::Record(CapsKind::Press)).push(Effect::Record(CapsKind::Release)),
        ..with_paste(v, PasteView { caps_held: false, ..v.shared.paste })
    });
}

/// While the voice speaks, two taps that come soon after each other skip the message and
/// do nothing else: the first only waits for the second.
pub proof fn law_double_tap_skips_the_message(
    v: EngineView,
    first: u64,
    second: u64,
    o: Observed,
    p: Observed,
)
    requires
        !(v.gesture matches GestureState::ConfirmArmed { double_pending: true, .. }),
        v.pending_tap_at is None,
        o.speaking,
        p.speaking,
        second.saturating_sub(first) <= DOUBLE_TAP_MS,
    ensures
        tapped(v, first, o) == (EngineView { pending_tap_at: Some(first), ..v }),
        tapped(tapped(v, first, o), second, p) == emit(v, Effect::SkipMessage),
{
    assert(tapped(tapped(v, first, o), second, p) =~= emit(v, Effect::SkipMessage));
}

/// A tap while the voice speaks that no second one follows takes effect when its time is
/// over, unless the key is down; and until then nothing happens.
pub proof fn law_lone_tap_takes_effect_later(v: EngineView, tap: u64, o: Observed)
    requires
        v.press is Up,
        v.pending_tap_at == Some(tap),
    ensures
        pending_tap_checked(v, o) == (if o.now.saturating_sub(tap) > DOUBLE_TAP_MS {
            toggled(EngineView { pending_tap_at: None, ..v }, o)
        } else {
            v
        }),
{
}

/// A tap while the voice is silent takes effect at once.
pub proof fn law_tap_in_silence_is_immediate(v: EngineView, at: u64, o: Observed)
    requires
        !(v.gesture matches GestureState::ConfirmArmed { double_pending: true, .. }),
        !o.speaking,
    ensures
        tapped(v, at, o) == toggled(EngineView { pending_tap_at: None, ..v }, o),
{
}

/// A tap while no dictation can begin, although dictation is on, leaves the voice alone:
/// nothing would resume it.
pub proof fn law_refused_tap_leaves_the_voice_alone(v: EngineView, o: Observed)
    requires
        v.cfg.stt is Some,
        !ready(v, o),
    ensures
        ({
            let a = toggled(v, o);
            &&& a.gesture == v.gesture
            &&& a.voice_paused == v.voice_paused
            &&& forall|i: int|
                v.fx.len() <= i < a.fx.len() ==> (#[trigger] a.fx[i]) is HealHelper || a.fx[i]
                    is Record
            &&& forall|i: int| 0 <= i < v.fx.len() ==> a.fx[i] == v.fx[i]
        }),
{
}

/// With dictation off, a tap pauses the voice and the next one resumes it, and the
/// microphone is never opened.
pub proof fn law_taps_pause_and_resume(v: EngineView, o: Observed, p: Observed)
    requires
        v.cfg.stt is None,
        !recording(v),
        !v.voice_paused,
    ensures
        toggled(v, o).voice_paused,
        toggled(v, o).fx == v.fx.push(Effect::PauseVoice),
        !toggled(toggled(v, o), p).voice_paused,
        toggled(toggled(v, o), p).fx == v.fx.push(Effect::PauseVoice).push(Effect::ResumeVoice),
{
}

/// With dictation ready, a tap begins a dictation and pauses the voice; the next one ends
/// it and resumes the voice.
pub proof fn law_taps_start_and_stop(v: EngineView, o: Observed, p: Observed)
    requires
        v.cfg.stt is Some,
        v.gesture is Idle,
        ready(v, o),
    ensures
        recording(toggled(v, o)),
        toggled(v, o).fx == v.fx.push(Effect::PauseVoice) + (if o.full_duplex {
            Seq::empty()
        } else {
            seq![Effect::BargeOutside]
        }) + seq![Effect::Led(true), Effect::SttStart, Effect::Record(CapsKind::Start)],
        toggled(toggled(v, o), p).fx == toggled(v, o).fx + seq![
            Effect::Led(false),
            Effect::SttStop,
            Effect::ResumeVoice,
            Effect::Record(CapsKind::Stop),
        ],
        toggled(toggled(v, o), p).gesture == (if p.defers_paste {
            GestureState::ConfirmArmed {
                stop_tap_at: Some(p.now),
                double_pending: false,
                enter_after_paste: !v.cfg.double_tap_submits,
            }
        } else {
            GestureState::Idle
        }),
{
}

// ── The text ─────────────────────────────────────────────────────────────────

/// A final text that comes after its dictation was cancelled, torn down or followed by
/// another is dropped.
pub proof fn law_late_text_is_never_pasted(v: EngineView, o: Observed, text: Seq<char>)
    ensures
        ({
            let old_epoch = v.shared.paste.epoch;
            let c = cancelled(v).shared.paste;
            let t = torn_down(v).shared.paste;
            let s = recording_started(v, o).shared.paste;
            &&& deposited(c, old_epoch, text) == c && c.final_state is Idle
            &&& deposited(t, old_epoch, text) == t && t.final_state is Idle
            &&& v.cfg.stt is Some && !recording(v) ==> deposited(s, old_epoch, text) == s
                && s.final_state is Idle
        }),
{
}

/// The text is not pasted while the key is down or a second tap may come.
pub proof fn law_text_waits_for_the_gesture(v: EngineView, now: u64)
    requires
        submit_held(v, now),
    ensures
        submit_checked(v, now) == v,
{
}

/// A text that has come and need not wait is pasted, once: it is handed out, and nothing
/// is left to paste. Enter is pressed exactly where the gesture says so, at once or when
/// the pause is over.
pub proof fn law_text_is_pasted_once(v: EngineView, now: u64, text: Seq<char>)
    requires
        v.gesture is ConfirmArmed,
        v.shared.paste.final_state == FinalView::Ready(text),
        v.pending_enter_at is None,
        !submit_held(v, now),
    ensures
        ({
            let a = submit_checked(v, now);
            let silenced = Effect::CancelSpeech {
                current: v.cfg.clears_current,
                other: v.cfg.clears_other,
            };
            &&& a.outbox == Some(text)
            &&& a.fx == v.fx.push(Effect::Paste) + (if !v.gesture->enter_after_paste {
                Seq::empty()
            } else if v.cfg.paste_submit_delay_ms > 0 {
                seq![silenced]
            } else {
                seq![silenced, Effect::PressEnter, Effect::NoteVoiceSubmit]
            }) + seq![Effect::Led(false), Effect::Record(CapsKind::Confirm)]
            &&& a.gesture is Idle
            &&& a.shared.paste.final_state is Idle
            &&& submit_checked(a, now) == a
            &&& a.pending_enter_at == (if v.gesture->enter_after_paste
                && v.cfg.paste_submit_delay_ms > 0 {
                Some(now.saturating_add(v.cfg.paste_submit_delay_ms))
            } else {
                None
            })
        }),
{
}

/// An Enter key that waits is pressed when its time has come, whatever the mode.
pub proof fn law_waiting_enter_is_pressed(v: EngineView, edges: Seq<CapsEdge>, o: Observed)
    requires
        v.pending_enter_at is Some,
        o.now >= v.pending_enter_at->0,
    ensures
        tick_begun(v, o).fx.take(v.fx.len() as int + 2) == entered(v).fx,
        tick_begun(v, o).pending_enter_at is None,
{
    assert(tick_begun(v, o).fx.take(v.fx.len() as int + 2) =~= entered(v).fx);
}

// ── Modes and settings ───────────────────────────────────────────────────────

/// While the engine listens all the time, or the key does not drive dictation, the key
/// does nothing.
pub proof fn law_key_rests_in_other_modes(v: EngineView, edges: Seq<CapsEdge>, o: Observed)
    requires
        v.cfg.listen_mode == ListenMode::Always || !v.caps_enabled,
    ensures
        ({
            let a = ticked(v, edges, o);
            &&& a.gesture == v.gesture
            &&& a.press == v.press
            &&& a.pending_tap_at == v.pending_tap_at
            &&& a.voice_paused == v.voice_paused
            &&& a.outbox == v.outbox
        }),
{
}

/// A change of the settings that touches neither what transcribes nor the key nor
/// hands-free dictation leaves a dictation that is under way alone.
pub proof fn law_unrelated_change_disturbs_nothing(
    v: EngineView,
    cfg: VoiceConfig,
    hf: HandsFreeView,
    probe: ReloadProbe,
)
    requires
        !stt_changed(cfg, v.cfg),
        probe.local_stt == v.stt_is_local,
        (cfg.caps && probe.preflight) == v.caps_enabled,
        v.gesture is Idle || v.caps_enabled,
        cfg.listen_mode != ListenMode::Always,
        !v.listener,
    ensures
        reloaded(v, cfg, hf, probe).gesture == v.gesture,
        reloaded(v, cfg, hf, probe).shared == v.shared,
        reloaded(v, cfg, hf, probe).press == v.press,
        reloaded(v, cfg, hf, probe).pending_tap_at == v.pending_tap_at,
        reloaded(v, cfg, hf, probe).pending_enter_at == v.pending_enter_at,
        reloaded(v, cfg, hf, probe).cfg == cfg,
{
    reveal(stt_followed);
    reveal(helper_followed);
    reveal(listener_followed);
    reveal(settings_taken);
}

/// The counter moves only where what is shown has changed: a second look shows nothing
/// new.
pub proof fn law_status_settles(v: EngineView, now: u64)
    ensures
        status_published(status_published(v, now), now) == status_published(v, now),
{
}

} // verus!
