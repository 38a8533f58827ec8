//! What holds of whole dictations: from the tap that begins one to the text that is
//! pasted, and of what happens in between.

use crate::config::{HandsFreeView, ListenMode, SttEngine, TtsEngine, VoiceConfig};
use crate::config_gate::HelperStt;
use crate::engine::gesture::{
    pairs_with, tap_meaning, tap_timing, CapsEdge, CapsTap, GestureState, PressState, TapAction,
    DOUBLE_TAP_MS,
};
use crate::engine::machine::{
    assembled, cancelled, confirmed, edge_applied, edges_applied, gated, helper_followed,
    hold_checked, key_followed, listener_followed, listener_outdated, pending_tap_checked, prefs_of, reloaded,
    settings_taken, shown, stt_followed, submit_checked, tick_begun, ticked, toggled, torn_down,
    with_paste, Effect, EngineView, HelperPrefs, Observed, ReloadProbe,
};
use crate::engine::paste::{
    armed_paste, deposited, disarmed_paste, dropped_paste, refusal_shown, FinalView, PasteView,
};
use crate::status::CapsKind;
use crate::text::trim;
use vstd::prelude::*;

verus! {

// ── Counting ─────────────────────────────────────────────────────────────────

/// How often something is done.
#[verifier::opaque]
pub open spec fn times(fx: Seq<Effect>, e: Effect) -> nat
    decreases fx.len(),
{
    if fx.len() == 0 {
        0
    } else {
        times(fx.drop_last(), e) + (if fx.last() == e {
            1nat
        } else {
            0nat
        })
    }
}

broadcast proof fn lemma_times_push(fx: Seq<Effect>, x: Effect, e: Effect)
    ensures
        #[trigger] times(fx.push(x), e) == times(fx, e) + (if x == e {
            1nat
        } else {
            0nat
        }),
{
    reveal(times);
    assert(fx.push(x).drop_last() =~= fx);
}

// ── The text that has come ───────────────────────────────────────────────────

/// Enter follows a pasted text if and only if the dictation was to be submitted, whatever
/// the pause in the settings: it is pressed at once or its time is set, and speech is
/// silenced; else the text is only inserted. Either way the text is handed out once, and
/// the dictation is over.
pub proof fn law_enter_only_where_it_was_asked_for(
    v: EngineView,
    stop_tap_at: Option<u64>,
    enter: bool,
    text: Seq<char>,
    now: u64,
)
    requires
        v.gesture == (GestureState::ConfirmArmed {
            stop_tap_at,
            double_pending: false,
            enter_after_paste: enter,
        }),
        v.press is Up,
        stop_tap_at matches Some(t) ==> t + 280 < now,
        v.shared.paste.final_state == FinalView::Ready(text),
    ensures
        ({
            let a = submit_checked(v, now);
            let pause = v.cfg.paste_submit_delay_ms;
            let silenced = Effect::CancelSpeech {
                current: v.cfg.clears_current,
                other: v.cfg.clears_other,
            };
            &&& a.outbox == Some(text)
            &&& a.gesture is Idle
            &&& a.shared.paste.final_state is Idle
            &&& a.shared.paste.partial.len() == 0
            &&& !enter ==> a.fx == v.fx + seq![
                Effect::Paste,
                Effect::Led(false),
                Effect::Record(CapsKind::Confirm),
            ] && a.pending_enter_at == v.pending_enter_at
            &&& enter && pause == 0 ==> a.fx == v.fx + seq![
                Effect::Paste,
                silenced,
                Effect::PressEnter,
                Effect::NoteVoiceSubmit,
                Effect::Led(false),
                Effect::Record(CapsKind::Confirm),
            ] && a.pending_enter_at == v.pending_enter_at
            &&& enter && pause > 0 ==> a.fx == v.fx + seq![
                Effect::Paste,
                silenced,
                Effect::Led(false),
                Effect::Record(CapsKind::Confirm),
            ] && a.pending_enter_at is Some && (now + pause <= u64::MAX ==> a.pending_enter_at->0
                == now + pause)
        }),
{
    let a = submit_checked(v, now);
    let silenced = Effect::CancelSpeech {
        current: v.cfg.clears_current,
        other: v.cfg.clears_other,
    };
    if !enter {
        assert(a.fx =~= v.fx + seq![
            Effect::Paste,
            Effect::Led(false),
            Effect::Record(CapsKind::Confirm),
        ]);
    } else if v.cfg.paste_submit_delay_ms == 0 {
        assert(a.fx =~= v.fx + seq![
            Effect::Paste,
            silenced,
            Effect::PressEnter,
            Effect::NoteVoiceSubmit,
            Effect::Led(false),
            Effect::Record(CapsKind::Confirm),
        ]);
    } else {
        assert(a.fx =~= v.fx + seq![
            Effect::Paste,
            silenced,
            Effect::Led(false),
            Effect::Record(CapsKind::Confirm),
        ]);
    }
}

/// The text waits while the key is down, while a second tap is under way, and until no
/// second tap can come; an empty text ends the dictation and nothing is pasted; a text
/// that has not come is waited for.
pub proof fn law_when_the_text_waits(
    v: EngineView,
    stop_tap_at: Option<u64>,
    double_pending: bool,
    enter: bool,
    now: u64,
)
    requires
        v.gesture == (GestureState::ConfirmArmed {
            stop_tap_at,
            double_pending,
            enter_after_paste: enter,
        }),
    ensures
        v.press is Down || double_pending || (stop_tap_at matches Some(t) && now <= t + 280)
            ==> submit_checked(v, now) == v,
        v.shared.paste.final_state is Armed || v.shared.paste.final_state is Idle
            ==> submit_checked(v, now) == v,
        v.press is Up && !double_pending && stop_tap_at is None && v.shared.paste.final_state
            is Empty ==> {
            let a = submit_checked(v, now);
            &&& a.gesture is Idle
            &&& a.shared.paste.final_state is Idle
            &&& a.outbox == v.outbox
            &&& a.pending_enter_at == v.pending_enter_at
            &&& a.fx == v.fx.push(Effect::Led(false)).push(Effect::Record(CapsKind::Confirm))
        },
{
}

/// Without a dictation that waits for its text, nothing is pasted.
pub proof fn law_nothing_is_pasted_unasked(v: EngineView, now: u64)
    requires
        !(v.gesture is ConfirmArmed),
    ensures
        submit_checked(v, now) == v,
{
}

/// A text that has come counts for its own dictation alone, trimmed, and a blank one
/// counts as empty; the text so far is done with.
pub proof fn law_final_text_is_deposited(p: PasteView, epoch: u64, text: Seq<char>)
    ensures
        p.epoch != epoch ==> deposited(p, epoch, text) == p,
        p.epoch == epoch && trim(text).len() > 0 ==> deposited(p, epoch, text) == (PasteView {
            partial: Seq::empty(),
            final_state: FinalView::Ready(trim(text)),
            ..p
        }),
        p.epoch == epoch && trim(text).len() == 0 ==> deposited(p, epoch, text) == (PasteView {
            partial: Seq::empty(),
            final_state: FinalView::Empty,
            ..p
        }),
{
}

/// A dictation that is given up leaves no text, and its number is used up; a text that has
/// come is kept when the engine begins or ends to wait for one, and is the only thing that
/// is.
pub proof fn law_text_is_kept_or_dropped(p: PasteView, text: Seq<char>)
    ensures
        dropped_paste(p).final_state is Idle,
        dropped_paste(p).partial.len() == 0,
        dropped_paste(p).epoch != p.epoch,
        dropped_paste(p).refused_until == p.refused_until,
        dropped_paste(p).caps_held == p.caps_held,
        p.final_state == FinalView::Ready(text) ==> armed_paste(p) == p && disarmed_paste(p) == p,
        p.final_state is Idle ==> armed_paste(p) == (PasteView {
            final_state: FinalView::Armed,
            ..p
        }),
        p.final_state is Armed ==> armed_paste(p) == p,
        p.final_state is Armed || p.final_state is Empty ==> disarmed_paste(p) == (PasteView {
            final_state: FinalView::Idle,
            ..p
        }),
{
}

/// What is shown: the final text once it has come, else the text so far; that it waits to
/// be pasted once the dictation was ended; and neither while the key is down, since the
/// press may yet cancel.
pub proof fn law_what_is_shown(v: EngineView, text: Seq<char>, now: u64)
    ensures
        ({
            let p = v.shared.paste;
            let s = shown(v, now);
            &&& p.caps_held ==> s.text == p.partial && !s.awaiting
            &&& !p.caps_held && p.final_state == FinalView::Ready(text) ==> s.text == text
                && s.awaiting
            &&& !p.caps_held && !(p.final_state is Ready) ==> s.text == p.partial
            &&& !p.caps_held ==> (s.awaiting <==> !(p.final_state is Idle))
            &&& s.has_target == p.has_paste_target
            &&& s.refused <==> (p.refused_until matches Some(t) && now < t)
        }),
{
}

// ── Taps and presses ─────────────────────────────────────────────────────────

/// Two taps count together when at most 280 milliseconds lie between them; a tap counts
/// with no tap.
pub proof fn law_taps_that_count_together(first: u64, now: u64, window: u64)
    ensures
        pairs_with(Some(first), now, window) <==> now <= first + window,
        pairs_with(Some(first), now, DOUBLE_TAP_MS) <==> now <= first + 280,
        !pairs_with(None, now, window),
        tap_timing(false, Some(first), now, window) == TapAction::Immediate,
        tap_timing(false, None, now, window) == TapAction::Immediate,
        tap_timing(true, None, now, window) == TapAction::Defer,
        tap_timing(true, Some(first), now, window) == (if now <= first + window {
            TapAction::Skip
        } else {
            TapAction::Defer
        }),
{
}

/// What a tap means. Dictation that is recorded is ended, whatever else holds; it begins
/// only where it can; and only with dictation off does a tap concern the voice.
pub proof fn law_what_a_tap_means(ready: bool, paused: bool)
    ensures
        tap_meaning(true, ready, true, paused) == CapsTap::StopRecord,
        tap_meaning(true, true, false, paused) == CapsTap::StartRecord,
        tap_meaning(true, false, false, paused) == CapsTap::Refused,
        tap_meaning(false, ready, false, false) == CapsTap::PauseVoice,
        tap_meaning(false, ready, false, true) == CapsTap::ResumeVoice,
{
}

/// A press cancels from the moment on that it was held as long as a long press takes, and
/// not before; then the light is set right while the key is down.
pub proof fn law_when_a_hold_cancels(v: EngineView, since: u64, now: u64)
    requires
        v.press == (PressState::Down { since, long_press_fired: false }),
        since <= now,
    ensures
        now - since < v.long_press_ms ==> hold_checked(v, now) == (EngineView {
            fx: v.fx.push(Effect::Led(v.gesture is Recording)),
            ..v
        }),
        now - since >= v.long_press_ms ==> {
            let a = hold_checked(v, now);
            &&& a.gesture is Idle
            &&& a.press == (PressState::Down { since, long_press_fired: true })
            &&& a.shared.paste.final_state is Idle
            &&& a.shared.paste.epoch != v.shared.paste.epoch
            &&& a.shared.paste.refused_until is None
            &&& a.pending_tap_at is None && a.pending_enter_at is None
            &&& a.outbox == v.outbox
            &&& times(a.fx, Effect::Paste) == times(v.fx, Effect::Paste)
            &&& times(a.fx, Effect::PressEnter) == times(v.fx, Effect::PressEnter)
            &&& times(a.fx, Effect::ClearVoice) == times(v.fx, Effect::ClearVoice) + 1
        },
{
    broadcast use lemma_times_push;

}

/// With the key up, nothing is held.
pub proof fn law_no_hold_without_a_press(v: EngineView, now: u64)
    requires
        v.press is Up,
    ensures
        hold_checked(v, now) == v,
{
}

/// A press begins at its time, and counts as a second tap if and only if it begins at most
/// 280 milliseconds after the tap that ended the dictation.
pub proof fn law_press_begins_at_its_time(v: EngineView, at: u64, o: Observed)
    ensures
        ({
            let a = edge_applied(v, CapsEdge { down: true, at }, o);
            &&& a.press == (PressState::Down { since: at, long_press_fired: false })
            &&& a.shared.paste.caps_held
            &&& v.gesture matches GestureState::ConfirmArmed {
                stop_tap_at,
                enter_after_paste,
                ..
            } ==> a.gesture == (GestureState::ConfirmArmed {
                stop_tap_at,
                double_pending: stop_tap_at matches Some(t) && at <= t + 280,
                enter_after_paste,
            })
            &&& !(v.gesture is ConfirmArmed) ==> a.gesture == v.gesture
            &&& a.pending_enter_at == v.pending_enter_at
            &&& a.pending_tap_at == v.pending_tap_at
            &&& a.outbox == v.outbox
        }),
{
}

/// A release ends the press.
pub proof fn law_release_ends_the_press(v: EngineView, at: u64, o: Observed)
    ensures
        edge_applied(v, CapsEdge { down: false, at }, o).press is Up,
        !edge_applied(v, CapsEdge { down: false, at }, o).shared.paste.caps_held,
{
}

/// A release without a press is no tap.
pub proof fn law_release_without_press_is_no_tap(v: EngineView, at: u64, o: Observed)
    requires
        v.press is Up,
    ensures
        edge_applied(v, CapsEdge { down: false, at }, o).gesture == v.gesture,
        edge_applied(v, CapsEdge { down: false, at }, o).voice_paused == v.voice_paused,
        edge_applied(v, CapsEdge { down: false, at }, o).pending_tap_at == v.pending_tap_at,
        edge_applied(v, CapsEdge { down: false, at }, o).fx == v.fx.push(
            Effect::Record(CapsKind::Release),
        ),
{
}

/// A tap that waited is taken up once more than 280 milliseconds have passed, with the
/// key up; not before, and not while the key is down.
pub proof fn law_when_a_waiting_tap_counts(v: EngineView, tap: u64, o: Observed)
    requires
        v.pending_tap_at == Some(tap),
    ensures
        v.press is Down || o.now <= tap + 280 ==> pending_tap_checked(v, o) == v,
        v.press is Up && o.now > tap + 280 ==> pending_tap_checked(v, o) == toggled(
            EngineView { pending_tap_at: None, ..v },
            o,
        ),
{
}

/// A tap that no dictation can answer shows a sign for a second and a half, where there is
/// something to wait for, and has a helper that may have died looked after.
pub proof fn law_refused_tap_shows_a_sign(v: EngineView, o: Observed, later: u64)
    requires
        !(v.gesture is Recording),
        v.cfg.stt == Some(SttEngine::BuiltIn) && !o.stt_loaded || v.cfg.stt == Some(
            SttEngine::System,
        ) && !o.system_ready,
        o.now + 1_500 <= u64::MAX,
    ensures
        ({
            let a = toggled(v, o);
            &&& a.gesture == v.gesture
            &&& a.voice_paused == v.voice_paused
            &&& a.shared.paste.refused_until == Some((o.now + 1_500) as u64)
            &&& refusal_shown(a.shared.paste.refused_until, later) <==> later < o.now + 1_500
            &&& a.fx == v.fx + (if v.cfg.stt == Some(SttEngine::BuiltIn) {
                seq![Effect::HealHelper]
            } else {
                Seq::empty()
            }) + seq![Effect::Record(CapsKind::Refused)]
        }),
{
    let a = toggled(v, o);
    assert(a.fx =~= v.fx + (if v.cfg.stt == Some(SttEngine::BuiltIn) {
        seq![Effect::HealHelper]
    } else {
        Seq::empty()
    }) + seq![Effect::Record(CapsKind::Refused)]);
}

/// A dictation begins on a tap where the model is loaded, the recognizer of the operating
/// system is ready, or the agent dictates itself; what was left of an earlier one is
/// dropped, and the application in front is remembered.
pub proof fn law_tap_begins_a_dictation(v: EngineView, o: Observed)
    requires
        !(v.gesture is Recording),
        v.cfg.stt == Some(SttEngine::BuiltIn) && o.stt_loaded || v.cfg.stt == Some(
            SttEngine::System,
        ) && o.system_ready || v.cfg.stt == Some(SttEngine::ClaudeCode),
    ensures
        ({
            let a = toggled(v, o);
            &&& a.gesture is Recording
            &&& a.shared.stt_active
            &&& a.shared.paste.partial.len() == 0
            &&& a.shared.paste.final_state is Idle
            &&& a.shared.paste.epoch != v.shared.paste.epoch
            &&& a.shared.paste.refused_until is None
            &&& o.frontmost matches Some(name) ==> a.shared.paste.target == Some(name@)
            &&& o.frontmost is None ==> a.shared.paste.target is None
            &&& times(a.fx, Effect::SttStart) == times(v.fx, Effect::SttStart) + 1
            &&& times(a.fx, Effect::PauseVoice) == times(v.fx, Effect::PauseVoice) + 1
            &&& times(a.fx, Effect::BargeOutside) == times(v.fx, Effect::BargeOutside) + (
            if o.full_duplex {
                0nat
            } else {
                1nat
            })
            &&& a.fx.last() == Effect::Record(CapsKind::Start)
        }),
{
    broadcast use lemma_times_push;

}

/// The tap that ends a dictation closes the microphone, lets the voice go on, and waits
/// for the final text where one is handed over: it is then submitted, or only inserted
/// where the settings keep the submit for a double tap.
pub proof fn law_tap_ends_a_dictation(v: EngineView, o: Observed)
    requires
        v.gesture is Recording,
        v.cfg.stt is Some,
    ensures
        ({
            let a = toggled(v, o);
            &&& !a.shared.stt_active
            &&& a.shared.paste.epoch == v.shared.paste.epoch
            &&& a.shared.paste.partial == v.shared.paste.partial
            &&& o.defers_paste ==> a.gesture == (GestureState::ConfirmArmed {
                stop_tap_at: Some(o.now),
                double_pending: false,
                enter_after_paste: !v.cfg.double_tap_submits,
            })
            &&& o.defers_paste && v.shared.paste.final_state is Idle
                ==> a.shared.paste.final_state is Armed
            &&& !o.defers_paste ==> a.gesture is Idle && a.shared.paste == v.shared.paste
            &&& a.fx == v.fx + seq![
                Effect::Led(false),
                Effect::SttStop,
                Effect::ResumeVoice,
                Effect::Record(CapsKind::Stop),
            ]
        }),
{
    assert(toggled(v, o).fx =~= v.fx + seq![
        Effect::Led(false),
        Effect::SttStop,
        Effect::ResumeVoice,
        Effect::Record(CapsKind::Stop),
    ]);
}

// ── Ticks ────────────────────────────────────────────────────────────────────

/// Every tick tells the voice whether a terminal is in front, which counts only where the
/// voice pauses without one; presses an Enter key whose time has come; and looks whether
/// there is something to paste into while a dictation is under way.
pub proof fn law_what_every_tick_does(v: EngineView, o: Observed)
    ensures
        ({
            let a = tick_begun(v, o);
            let due = v.pending_enter_at matches Some(t) && t <= o.now;
            &&& a.fx == v.fx + (if due {
                seq![Effect::PressEnter, Effect::NoteVoiceSubmit]
            } else {
                Seq::empty()
            }) + seq![
                Effect::TerminalFront {
                    front: o.terminal_front || !v.cfg.pause_in_background,
                    pause_in_background: v.cfg.pause_in_background,
                },
            ]
            &&& a.pending_enter_at == (if due {
                None
            } else {
                v.pending_enter_at
            })
            &&& a.gesture == v.gesture && a.press == v.press && a.cfg == v.cfg && a.outbox
                == v.outbox && a.pending_tap_at == v.pending_tap_at
            &&& v.shared.stt_active || !(v.shared.paste.final_state is Idle)
                ==> a.shared.paste.has_paste_target == (o.paste_target || o.terminal_front)
            &&& !v.shared.stt_active && v.shared.paste.final_state is Idle ==> a.shared.paste
                == v.shared.paste
        }),
{
    let due = v.pending_enter_at matches Some(t) && t <= o.now;
    assert(tick_begun(v, o).fx =~= v.fx + (if due {
        seq![Effect::PressEnter, Effect::NoteVoiceSubmit]
    } else {
        Seq::empty()
    }) + seq![
        Effect::TerminalFront {
            front: o.terminal_front || !v.cfg.pause_in_background,
            pause_in_background: v.cfg.pause_in_background,
        },
    ]);
}

/// Where the movements of the key are not queued, a tick sees one where the key is not
/// as it was: it counts as a press or a release at the time of the tick.
pub proof fn law_key_is_looked_at(v: EngineView, edges: Seq<CapsEdge>, o: Observed)
    requires
        !o.event_driven,
    ensures
        key_followed(v, edges, o).caps_phys_prev == o.caps_down,
        o.caps_down == v.caps_phys_prev ==> key_followed(v, edges, o) == v,
        o.caps_down && !v.caps_phys_prev ==> key_followed(v, edges, o).press == (PressState::Down {
            since: o.now,
            long_press_fired: false,
        }),
        !o.caps_down && v.caps_phys_prev ==> key_followed(v, edges, o).press is Up,
{
}

/// Queued movements of the key are followed one after the other.
pub proof fn law_key_is_followed(v: EngineView, edges: Seq<CapsEdge>, e: CapsEdge, o: Observed)
    requires
        o.event_driven,
    ensures
        edges_applied(v, Seq::empty(), o) == v,
        edges_applied(v, edges.push(e), o) == edge_applied(edges_applied(v, edges, o), e, o),
        key_followed(v, edges, o).gesture == edges_applied(v, edges, o).gesture,
        key_followed(v, edges, o).fx == edges_applied(v, edges, o).fx,
{
    assert(edges.push(e).drop_last() =~= edges);
}

/// Hands-free dictation makes its tick in every tick of an engine that listens all the
/// time and has it, with what the settings and the voice say.
pub proof fn law_listener_ticks_while_listening(v: EngineView, edges: Seq<CapsEdge>, o: Observed)
    requires
        v.cfg.listen_mode == ListenMode::Always,
    ensures
        ticked(v, edges, o).fx == tick_begun(v, o).fx + (if v.listener {
            seq![
                Effect::ListenerTick {
                    busy: o.busy,
                    cancel_current: v.cfg.clears_current,
                    cancel_other: v.cfg.clears_other,
                },
            ]
        } else {
            Seq::empty()
        }) + (if o.event_driven {
            seq![Effect::DrainKey]
        } else {
            Seq::empty()
        }),
{
    assert(ticked(v, edges, o).fx =~= tick_begun(v, o).fx + (if v.listener {
        seq![
            Effect::ListenerTick {
                busy: o.busy,
                cancel_current: v.cfg.clears_current,
                cancel_other: v.cfg.clears_other,
            },
        ]
    } else {
        Seq::empty()
    }) + (if o.event_driven {
        seq![Effect::DrainKey]
    } else {
        Seq::empty()
    }));
}

// ── Whole dictations ─────────────────────────────────────────────────────────

/// The key drives dictation, is up, and nothing waits.
pub open spec fn at_rest(v: EngineView) -> bool {
    &&& v.caps_enabled
    &&& v.cfg.listen_mode != ListenMode::Always
    &&& v.press is Up
    &&& v.pending_tap_at is None
    &&& v.pending_enter_at is None
}

/// The engine after a tick.
#[verifier::opaque]
pub open spec fn after_tick(v: EngineView, edges: Seq<CapsEdge>, o: Observed) -> EngineView {
    ticked(v, edges, o)
}

/// A tap: the key goes down and up.
pub open spec fn tap(down: u64, up: u64) -> Seq<CapsEdge> {
    seq![CapsEdge { down: true, at: down }, CapsEdge { down: false, at: up }]
}

/// Nothing was pasted and no Enter was pressed between two states.
pub open spec fn untouched(v: EngineView, w: EngineView) -> bool {
    &&& times(w.fx, Effect::Paste) == times(v.fx, Effect::Paste)
    &&& times(w.fx, Effect::PressEnter) == times(v.fx, Effect::PressEnter)
    &&& w.outbox == v.outbox
    &&& w.cfg == v.cfg
}

// The stages of a tick, each on its own.

#[verifier::opaque]
spec fn begun_tick(v: EngineView, o: Observed) -> EngineView {
    tick_begun(v, o)
}

#[verifier::opaque]
spec fn moved(v: EngineView, e: CapsEdge, o: Observed) -> EngineView {
    edge_applied(v, e, o)
}

#[verifier::opaque]
spec fn keyed(v: EngineView, edges: Seq<CapsEdge>, o: Observed) -> EngineView {
    key_followed(v, edges, o)
}

#[verifier::opaque]
spec fn settled(v: EngineView, o: Observed) -> EngineView {
    submit_checked(pending_tap_checked(hold_checked(v, o.now), o), o.now)
}

proof fn lemma_stages(v: EngineView, edges: Seq<CapsEdge>, o: Observed)
    requires
        v.caps_enabled,
        v.cfg.listen_mode != ListenMode::Always,
    ensures
        after_tick(v, edges, o) == settled(keyed(begun_tick(v, o), edges, o), o),
{
    reveal(after_tick);
    reveal(begun_tick);
    reveal(keyed);
    reveal(settled);
}

proof fn lemma_keyed_none(v: EngineView, o: Observed)
    requires
        o.event_driven,
    ensures
        keyed(v, Seq::empty(), o) == (EngineView { caps_phys_prev: o.caps_down, ..v }),
{
    reveal(keyed);
}

proof fn lemma_keyed_tap(v: EngineView, down: u64, up: u64, o: Observed)
    requires
        o.event_driven,
    ensures
        keyed(v, tap(down, up), o) == (EngineView {
            caps_phys_prev: o.caps_down,
            ..moved(
                moved(v, CapsEdge { down: true, at: down }, o),
                CapsEdge { down: false, at: up },
                o,
            )
        }),
{
    reveal(keyed);
    lemma_two_edges(v, CapsEdge { down: true, at: down }, CapsEdge { down: false, at: up }, o);
}

proof fn lemma_last_edge(v: EngineView, edges: Seq<CapsEdge>, o: Observed)
    requires
        edges.len() > 0,
    ensures
        edges_applied(v, edges, o) == moved(edges_applied(v, edges.drop_last(), o), edges.last(), o),
{
    reveal(moved);
}

proof fn lemma_no_edge(v: EngineView, edges: Seq<CapsEdge>, o: Observed)
    requires
        edges.len() == 0,
    ensures
        edges_applied(v, edges, o) == v,
{
}

proof fn lemma_two_edges(v: EngineView, a: CapsEdge, b: CapsEdge, o: Observed)
    ensures
        edges_applied(v, seq![a, b], o) == moved(moved(v, a, o), b, o),
{
    let e = seq![a, b];
    lemma_last_edge(v, e, o);
    lemma_last_edge(v, e.drop_last(), o);
    lemma_no_edge(v, e.drop_last().drop_last(), o);
    assert(e.last() == b && e.drop_last().last() == a);
}

proof fn lemma_begun_tick(v: EngineView, o: Observed)
    ensures
        ({
            let w = begun_tick(v, o);
            let due = v.pending_enter_at matches Some(t) && t <= o.now;
            &&& w.caps_enabled == v.caps_enabled && w.press == v.press && w.pending_tap_at
                == v.pending_tap_at && w.cfg == v.cfg && w.outbox == v.outbox && w.gesture
                == v.gesture
            &&& w.shared.paste.final_state == v.shared.paste.final_state
            &&& w.shared.paste.epoch == v.shared.paste.epoch
            &&& w.pending_enter_at == (if due {
                None
            } else {
                v.pending_enter_at
            })
            &&& times(w.fx, Effect::Paste) == times(v.fx, Effect::Paste)
            &&& times(w.fx, Effect::PressEnter) == times(v.fx, Effect::PressEnter) + (if due {
                1nat
            } else {
                0nat
            })
        }),
{
    broadcast use lemma_times_push;

    reveal(begun_tick);
}

/// A press.
proof fn lemma_moved_down(v: EngineView, at: u64, o: Observed)
    ensures
        ({
            let w = moved(v, CapsEdge { down: true, at }, o);
            &&& w.press == (PressState::Down { since: at, long_press_fired: false })
            &&& w.caps_enabled == v.caps_enabled && w.pending_tap_at == v.pending_tap_at
                && w.pending_enter_at == v.pending_enter_at
            &&& untouched(v, w)
            &&& w.shared.paste.final_state == v.shared.paste.final_state
            &&& w.shared.paste.epoch == v.shared.paste.epoch
            &&& !(v.gesture is ConfirmArmed) ==> w.gesture == v.gesture
            &&& v.gesture matches GestureState::ConfirmArmed {
                stop_tap_at,
                enter_after_paste,
                ..
            } ==> w.gesture == (GestureState::ConfirmArmed {
                stop_tap_at,
                double_pending: stop_tap_at matches Some(t) && at <= t + 280,
                enter_after_paste,
            })
        }),
{
    broadcast use lemma_times_push;

    reveal(moved);
}

/// The release that begins a dictation.
proof fn lemma_moved_up_starts(v: EngineView, at: u64, o: Observed)
    requires
        v.press matches PressState::Down { long_press_fired: false, .. },
        v.gesture is Idle,
        v.cfg.stt == Some(SttEngine::BuiltIn),
        o.stt_loaded,
        !o.speaking,
    ensures
        ({
            let w = moved(v, CapsEdge { down: false, at }, o);
            &&& w.press is Up && w.caps_enabled == v.caps_enabled && w.pending_tap_at is None
                && w.pending_enter_at == v.pending_enter_at
            &&& untouched(v, w)
            &&& w.gesture is Recording
            &&& w.shared.paste.final_state is Idle
            &&& w.shared.paste.epoch != v.shared.paste.epoch
        }),
{
    broadcast use lemma_times_push;

    reveal(moved);
}

/// The release that ends a dictation.
proof fn lemma_moved_up_stops(v: EngineView, at: u64, o: Observed)
    requires
        v.press matches PressState::Down { long_press_fired: false, .. },
        v.gesture is Recording,
        v.cfg.stt is Some,
        v.shared.paste.final_state is Idle,
        !o.speaking,
        o.defers_paste,
    ensures
        ({
            let w = moved(v, CapsEdge { down: false, at }, o);
            &&& w.press is Up && w.caps_enabled == v.caps_enabled && w.pending_tap_at is None
                && w.pending_enter_at == v.pending_enter_at
            &&& untouched(v, w)
            &&& w.gesture == (GestureState::ConfirmArmed {
                stop_tap_at: Some(o.now),
                double_pending: false,
                enter_after_paste: !v.cfg.double_tap_submits,
            })
            &&& w.shared.paste.final_state is Armed
            &&& w.shared.paste.epoch == v.shared.paste.epoch
        }),
{
    broadcast use lemma_times_push;

    reveal(moved);
}

/// The release of a second tap.
proof fn lemma_moved_up_flips(v: EngineView, at: u64, o: Observed)
    requires
        v.press matches PressState::Down { long_press_fired: false, .. },
        v.gesture matches GestureState::ConfirmArmed { double_pending: true, .. },
    ensures
        ({
            let w = moved(v, CapsEdge { down: false, at }, o);
            &&& w.press is Up && w.caps_enabled == v.caps_enabled && w.pending_tap_at
                == v.pending_tap_at && w.pending_enter_at == v.pending_enter_at
            &&& untouched(v, w)
            &&& w.gesture == (GestureState::ConfirmArmed {
                stop_tap_at: None,
                double_pending: false,
                enter_after_paste: !v.gesture->enter_after_paste,
            })
            &&& w.shared.paste.final_state == v.shared.paste.final_state
            &&& w.shared.paste.epoch == v.shared.paste.epoch
        }),
{
    broadcast use lemma_times_push;

    reveal(moved);
}

/// With the key up and no text to paste, the end of a tick does nothing.
proof fn lemma_settled(v: EngineView, o: Observed)
    requires
        v.press is Up,
        v.pending_tap_at is None,
        !(v.gesture is ConfirmArmed) || v.shared.paste.final_state is Armed,
    ensures
        settled(v, o) == v,
{
    reveal(settled);
}

/// With the key up and a text that need not wait, the end of a tick pastes it.
proof fn lemma_settled_pastes(
    v: EngineView,
    stop_tap_at: Option<u64>,
    enter: bool,
    text: Seq<char>,
    o: Observed,
)
    requires
        v.press is Up,
        v.pending_tap_at is None,
        v.gesture == (GestureState::ConfirmArmed {
            stop_tap_at,
            double_pending: false,
            enter_after_paste: enter,
        }),
        stop_tap_at matches Some(t) ==> t + 280 < o.now,
        v.shared.paste.final_state == FinalView::Ready(text),
        v.pending_enter_at is None,
    ensures
        ({
            let w = settled(v, o);
            let pause = v.cfg.paste_submit_delay_ms;
            &&& w.gesture is Idle
            &&& w.press is Up && w.pending_tap_at is None && w.caps_enabled == v.caps_enabled
                && w.cfg == v.cfg
            &&& w.outbox == Some(text)
            &&& times(w.fx, Effect::Paste) == times(v.fx, Effect::Paste) + 1
            &&& times(w.fx, Effect::PressEnter) == times(v.fx, Effect::PressEnter) + (if enter
                && pause == 0 {
                1nat
            } else {
                0nat
            })
            &&& w.pending_enter_at is Some <==> enter && pause > 0
            &&& enter && pause > 0 && o.now + pause <= u64::MAX ==> w.pending_enter_at == Some(
                (o.now + pause) as u64,
            )
        }),
{
    broadcast use lemma_times_push;

    reveal(settled);
}

/// The tick with the tap that begins a dictation.
proof fn lemma_start_tick(v: EngineView, down: u64, up: u64, o: Observed)
    requires
        at_rest(v),
        v.gesture is Idle,
        v.cfg.stt == Some(SttEngine::BuiltIn),
        o.stt_loaded,
        o.event_driven,
        !o.speaking,
    ensures
        ({
            let w = after_tick(v, tap(down, up), o);
            &&& at_rest(w)
            &&& untouched(v, w)
            &&& w.gesture is Recording
            &&& w.shared.paste.final_state is Idle
            &&& w.shared.paste.epoch != v.shared.paste.epoch
        }),
{
    let a = begun_tick(v, o);
    lemma_stages(v, tap(down, up), o);
    lemma_begun_tick(v, o);
    lemma_keyed_tap(a, down, up, o);
    lemma_moved_down(a, down, o);
    lemma_moved_up_starts(moved(a, CapsEdge { down: true, at: down }, o), up, o);
    lemma_settled(keyed(a, tap(down, up), o), o);
}

/// The tick with the tap that ends a dictation.
proof fn lemma_stop_tick(v: EngineView, down: u64, up: u64, o: Observed)
    requires
        at_rest(v),
        v.gesture is Recording,
        v.cfg.stt is Some,
        v.shared.paste.final_state is Idle,
        o.event_driven,
        !o.speaking,
        o.defers_paste,
    ensures
        ({
            let w = after_tick(v, tap(down, up), o);
            &&& at_rest(w)
            &&& untouched(v, w)
            &&& w.gesture == (GestureState::ConfirmArmed {
                stop_tap_at: Some(o.now),
                double_pending: false,
                enter_after_paste: !v.cfg.double_tap_submits,
            })
            &&& w.shared.paste.final_state is Armed
            &&& w.shared.paste.epoch == v.shared.paste.epoch
        }),
{
    let a = begun_tick(v, o);
    lemma_stages(v, tap(down, up), o);
    lemma_begun_tick(v, o);
    lemma_keyed_tap(a, down, up, o);
    lemma_moved_down(a, down, o);
    lemma_moved_up_stops(moved(a, CapsEdge { down: true, at: down }, o), up, o);
    lemma_settled(keyed(a, tap(down, up), o), o);
}

/// The tick with a second tap that counts with the one that ended the dictation.
proof fn lemma_second_tap_tick(
    v: EngineView,
    stopped: u64,
    enter: bool,
    down: u64,
    up: u64,
    o: Observed,
)
    requires
        at_rest(v),
        v.gesture == (GestureState::ConfirmArmed {
            stop_tap_at: Some(stopped),
            double_pending: false,
            enter_after_paste: enter,
        }),
        v.shared.paste.final_state is Armed,
        down <= stopped + 280,
        o.event_driven,
    ensures
        ({
            let w = after_tick(v, tap(down, up), o);
            &&& at_rest(w)
            &&& untouched(v, w)
            &&& w.gesture == (GestureState::ConfirmArmed {
                stop_tap_at: None,
                double_pending: false,
                enter_after_paste: !enter,
            })
            &&& w.shared.paste.final_state is Armed
            &&& w.shared.paste.epoch == v.shared.paste.epoch
        }),
{
    let a = begun_tick(v, o);
    lemma_stages(v, tap(down, up), o);
    lemma_begun_tick(v, o);
    lemma_keyed_tap(a, down, up, o);
    lemma_moved_down(a, down, o);
    lemma_moved_up_flips(moved(a, CapsEdge { down: true, at: down }, o), up, o);
    lemma_settled(keyed(a, tap(down, up), o), o);
}

/// A tick without a movement of the key, once the text has come and need not wait.
proof fn lemma_paste_tick(
    v: EngineView,
    stop_tap_at: Option<u64>,
    enter: bool,
    text: Seq<char>,
    o: Observed,
)
    requires
        at_rest(v),
        v.gesture == (GestureState::ConfirmArmed {
            stop_tap_at,
            double_pending: false,
            enter_after_paste: enter,
        }),
        stop_tap_at matches Some(t) ==> t + 280 < o.now,
        v.shared.paste.final_state == FinalView::Ready(text),
        o.event_driven,
    ensures
        ({
            let w = after_tick(v, Seq::empty(), o);
            let pause = v.cfg.paste_submit_delay_ms;
            &&& w.gesture is Idle
            &&& w.press is Up && w.pending_tap_at is None && w.caps_enabled && w.cfg == v.cfg
            &&& w.outbox == Some(text)
            &&& times(w.fx, Effect::Paste) == times(v.fx, Effect::Paste) + 1
            &&& times(w.fx, Effect::PressEnter) == times(v.fx, Effect::PressEnter) + (if enter
                && pause == 0 {
                1nat
            } else {
                0nat
            })
            &&& w.pending_enter_at is Some <==> enter && pause > 0
            &&& enter && pause > 0 && o.now + pause <= u64::MAX ==> w.pending_enter_at == Some(
                (o.now + pause) as u64,
            )
        }),
{
    let a = begun_tick(v, o);
    lemma_stages(v, Seq::empty(), o);
    lemma_begun_tick(v, o);
    lemma_keyed_none(a, o);
    lemma_settled_pastes(keyed(a, Seq::empty(), o), stop_tap_at, enter, text, o);
}

/// A later tick without a movement of the key: an Enter key that waits is pressed.
proof fn lemma_later_tick(v: EngineView, o: Observed)
    requires
        v.gesture is Idle,
        v.caps_enabled,
        v.cfg.listen_mode != ListenMode::Always,
        v.press is Up,
        v.pending_tap_at is None,
        o.event_driven,
    ensures
        ({
            let w = after_tick(v, Seq::empty(), o);
            let due = v.pending_enter_at matches Some(t) && t <= o.now;
            &&& times(w.fx, Effect::Paste) == times(v.fx, Effect::Paste)
            &&& times(w.fx, Effect::PressEnter) == times(v.fx, Effect::PressEnter) + (if due {
                1nat
            } else {
                0nat
            })
            &&& w.pending_enter_at == (if due {
                None
            } else {
                v.pending_enter_at
            })
            &&& w.gesture is Idle && w.caps_enabled && w.press is Up && w.pending_tap_at is None
            &&& w.cfg == v.cfg && w.outbox == v.outbox
        }),
{
    let a = begun_tick(v, o);
    lemma_stages(v, Seq::empty(), o);
    lemma_begun_tick(v, o);
    lemma_keyed_none(a, o);
    lemma_settled(keyed(a, Seq::empty(), o), o);
}

/// The final text of the dictation that is under way comes.
pub open spec fn text_comes(v: EngineView, text: Seq<char>) -> EngineView {
    with_paste(v, deposited(v.shared.paste, v.shared.paste.epoch, text))
}

/// A whole dictation: a tap begins it, a tap ends it, the text comes and is pasted. The
/// settings say whether a single tap submits it and a double tap only inserts it, or the
/// other way round: Enter is pressed once where the dictation is to be submitted, when
/// the pause is over, and never where it is only to be inserted, however long one waits.
/// The text is pasted once either way.
pub proof fn law_dictation_is_submitted_or_inserted(
    v: EngineView,
    text: Seq<char>,
    double: bool,
    start: Observed,
    stop: Observed,
    again: Observed,
    down: u64,
    up: u64,
    paste: Observed,
    later: Observed,
)
    requires
        at_rest(v),
        v.gesture is Idle,
        v.cfg.stt == Some(SttEngine::BuiltIn),
        start.event_driven && stop.event_driven && again.event_driven && paste.event_driven
            && later.event_driven,
        !start.speaking && !stop.speaking,
        start.stt_loaded,
        stop.defers_paste,
        down <= stop.now + 280 < paste.now,
        paste.now + v.cfg.paste_submit_delay_ms <= later.now,
        trim(text).len() > 0,
    ensures
        ({
            let recording = after_tick(v, tap(start.now, start.now), start);
            let stopped = after_tick(recording, tap(stop.now, stop.now), stop);
            let settled = if double {
                after_tick(stopped, tap(down, up), again)
            } else {
                stopped
            };
            let pasted = after_tick(text_comes(settled, text), Seq::empty(), paste);
            let ended = after_tick(pasted, Seq::empty(), later);
            let submit = v.cfg.double_tap_submits == double;
            &&& recording.gesture is Recording
            &&& stopped.gesture is ConfirmArmed
            &&& pasted.outbox == Some(trim(text))
            &&& times(pasted.fx, Effect::Paste) == times(v.fx, Effect::Paste) + 1
            &&& ended.gesture is Idle
            &&& times(ended.fx, Effect::Paste) == times(v.fx, Effect::Paste) + 1
            &&& times(ended.fx, Effect::PressEnter) == times(v.fx, Effect::PressEnter) + (
            if submit {
                1nat
            } else {
                0nat
            })
            &&& ended.pending_enter_at is None
            &&& !submit ==> pasted.pending_enter_at is None && times(
                pasted.fx,
                Effect::PressEnter,
            ) == times(v.fx, Effect::PressEnter)
            &&& submit && v.cfg.paste_submit_delay_ms > 0 ==> times(pasted.fx, Effect::PressEnter)
                == times(v.fx, Effect::PressEnter)
        }),
{
    let recording = after_tick(v, tap(start.now, start.now), start);
    lemma_start_tick(v, start.now, start.now, start);
    let stopped = after_tick(recording, tap(stop.now, stop.now), stop);
    lemma_stop_tick(recording, stop.now, stop.now, stop);
    let settled = if double {
        after_tick(stopped, tap(down, up), again)
    } else {
        stopped
    };
    if double {
        lemma_second_tap_tick(
            stopped,
            stop.now,
            !v.cfg.double_tap_submits,
            down,
            up,
            again,
        );
    }
    let come = text_comes(settled, text);
    let submit = v.cfg.double_tap_submits == double;
    assert(come.shared.paste.final_state == FinalView::Ready(trim(text)));
    assert(at_rest(come));
    lemma_paste_tick(
        come,
        if double {
            None
        } else {
            Some(stop.now)
        },
        submit,
        trim(text),
        paste,
    );
    let pasted = after_tick(come, Seq::empty(), paste);
    lemma_later_tick(pasted, later);
}

/// The engine after several ticks without a movement of the key.
pub open spec fn waited(v: EngineView, ticks: Seq<Observed>) -> EngineView
    decreases ticks.len(),
{
    if ticks.len() == 0 {
        v
    } else {
        after_tick(waited(v, ticks.drop_last()), Seq::empty(), ticks.last())
    }
}

/// An engine at rest stays so: nothing is pasted and no Enter is pressed, however long one
/// waits.
pub proof fn law_rest_is_quiet(v: EngineView, ticks: Seq<Observed>)
    requires
        at_rest(v),
        v.gesture is Idle,
        forall|i: int| 0 <= i < ticks.len() ==> (#[trigger] ticks[i]).event_driven,
    ensures
        at_rest(waited(v, ticks)),
        waited(v, ticks).gesture is Idle,
        untouched(v, waited(v, ticks)),
    decreases ticks.len(),
{
    if ticks.len() > 0 {
        law_rest_is_quiet(v, ticks.drop_last());
        lemma_later_tick(waited(v, ticks.drop_last()), ticks.last());
    }
}

// ── Settings ─────────────────────────────────────────────────────────────────

/// The key is taken when it is to drive dictation and given back when it is not, each once;
/// whatever is under way when it is given back ends, and its text is not pasted.
pub proof fn law_key_is_taken_and_given_back(v: EngineView, on: bool)
    ensures
        ({
            let a = gated(v, on);
            &&& a.caps_enabled == on
            &&& on && v.caps_enabled ==> a == v
            &&& on && !v.caps_enabled ==> a.fx == v.fx.push(Effect::AcquireKey) && a.gesture
                == v.gesture && a.shared.paste == v.shared.paste
            &&& !on ==> a.gesture is Idle
            &&& !on && v.caps_enabled ==> a.fx.last() == Effect::ReleaseKey && a.press is Up
            &&& !on && !v.caps_enabled && v.gesture is Idle ==> a == v
            &&& !on && !(v.gesture is Idle) ==> a.shared.paste.final_state is Idle
                && a.shared.paste.epoch != v.shared.paste.epoch && !a.shared.stt_active
            &&& a.cfg == v.cfg && a.outbox == v.outbox && a.pending_enter_at == v.pending_enter_at
            &&& on != v.caps_enabled ==> a.shared.gate.seq != v.shared.gate.seq
        }),
{
}

/// A dictation that the engine ends on its own leaves no text and no open microphone, and
/// the voice as it is.
pub proof fn law_ended_dictation_leaves_nothing(v: EngineView)
    ensures
        ({
            let a = torn_down(v);
            &&& a.gesture is Idle
            &&& !a.shared.stt_active
            &&& a.shared.paste.final_state is Idle && a.shared.paste.partial.len() == 0
            &&& a.shared.paste.epoch != v.shared.paste.epoch
            &&& a.fx == v.fx + (if v.gesture is Recording {
                seq![Effect::SttAbort]
            } else {
                Seq::empty()
            }) + seq![Effect::Led(false)]
            &&& a.outbox == v.outbox && a.voice_paused == v.voice_paused && a.cfg == v.cfg
        }),
{
    assert(torn_down(v).fx =~= v.fx + (if v.gesture is Recording {
        seq![Effect::SttAbort]
    } else {
        Seq::empty()
    }) + seq![Effect::Led(false)]);
}

/// What transcribes is made anew exactly where another engine, another provider or the
/// helper's being there has changed; a dictation that is under way ends with it.
pub proof fn law_transcription_follows_the_settings(
    v: EngineView,
    cfg: VoiceConfig,
    probe: ReloadProbe,
)
    ensures
        ({
            let a = stt_followed(v, cfg, probe);
            let anew = cfg.stt != v.cfg.stt || cfg.stt_provider != v.cfg.stt_provider
                || probe.local_stt != v.stt_is_local;
            &&& a.stt_is_local == probe.local_stt
            &&& !anew ==> a == v
            &&& anew ==> a.gesture is Idle && a.fx.last() == (Effect::BuildStt {
                local: probe.local_stt,
            }) && a.shared.paste.final_state is Idle
            &&& a.cfg == v.cfg && a.caps_enabled == v.caps_enabled && a.listener == v.listener
        }),
{
    reveal(stt_followed);
}

/// The helper is told of every change, run or ended where what speaks or transcribes has
/// changed, and started again last where it runs in an outdated mode.
pub proof fn law_helper_follows_the_settings(v: EngineView, cfg: VoiceConfig)
    ensures
        ({
            let prefs = HelperPrefs {
                full_duplex: cfg.full_duplex && cfg.stt == Some(SttEngine::BuiltIn) && cfg.tts
                    == Some(TtsEngine::BuiltIn) && cfg.tts_model_full_duplex,
                stt: if cfg.stt == Some(SttEngine::System) {
                    HelperStt::System
                } else {
                    HelperStt::Runtime(cfg.stt_provider)
                },
                uses_stt: cfg.stt == Some(SttEngine::BuiltIn) || cfg.stt == Some(
                    SttEngine::System,
                ),
                uses_tts: cfg.tts == Some(TtsEngine::BuiltIn),
                tts_provider: cfg.tts_provider,
            };
            let changed = cfg.tts != v.cfg.tts || cfg.stt != v.cfg.stt || cfg.stt_provider
                != v.cfg.stt_provider;
            helper_followed(v, cfg) == (EngineView {
                fx: v.fx + seq![Effect::SetHelperPrefs(prefs)] + (if changed {
                    seq![
                        Effect::EnableHelper(prefs.uses_tts || prefs.uses_stt),
                        Effect::ReconcileModels,
                    ]
                } else {
                    Seq::empty()
                }) + seq![Effect::RestartIfStale],
                ..v
            })
        }),
{
    reveal(helper_followed);
    let prefs = prefs_of(cfg);
    let changed = cfg.tts != v.cfg.tts || cfg.stt != v.cfg.stt || cfg.stt_provider
        != v.cfg.stt_provider;
    assert(helper_followed(v, cfg).fx =~= v.fx + seq![Effect::SetHelperPrefs(prefs)] + (
    if changed {
        seq![Effect::EnableHelper(prefs.uses_tts || prefs.uses_stt), Effect::ReconcileModels]
    } else {
        Seq::empty()
    }) + seq![Effect::RestartIfStale]);
}

/// Hands-free dictation is there exactly where the engine is to listen all the time: made
/// where it is missing or outdated, ended where it is not wanted, and otherwise left alone.
pub proof fn law_listener_follows_the_settings(v: EngineView, always: bool, outdated: bool)
    ensures
        ({
            let a = listener_followed(v, always, outdated);
            &&& a.listener == always
            &&& always && (!v.listener || outdated) ==> a.fx.last() == Effect::BuildListener
                && a.gesture is Idle
            &&& always && v.listener && !outdated ==> a == v
            &&& !always && v.listener ==> a.fx.last() == Effect::DropListener && a.gesture is Idle
            &&& !always && !v.listener ==> a == v
            &&& a.cfg == v.cfg && a.caps_enabled == v.caps_enabled
        }),
{
    reveal(listener_followed);
}

/// The settings that were read are the ones that hold; the voice is told last, and
/// hands-free dictation of its pause.
pub proof fn law_settings_are_taken_over(v: EngineView, cfg: VoiceConfig, hf: HandsFreeView)
    ensures
        settings_taken(v, cfg, hf) == (EngineView {
            cfg,
            hands_free: hf,
            fx: v.fx + (if v.listener {
                seq![Effect::ListenerDelay(cfg.paste_submit_delay_ms)]
            } else {
                Seq::empty()
            }) + seq![Effect::QueueConfig],
            ..v
        }),
{
    reveal(settings_taken);
    assert(settings_taken(v, cfg, hf).fx =~= v.fx + (if v.listener {
        seq![Effect::ListenerDelay(cfg.paste_submit_delay_ms)]
    } else {
        Seq::empty()
    }) + seq![Effect::QueueConfig]);
}

/// After the settings were read the engine is as they say: they hold, a long press takes as
/// long as they say, or six tenths of a second where they do not say, the key drives
/// dictation where they and the operating system let it, and hands-free dictation is there
/// where it is wanted.
pub proof fn law_engine_is_as_the_settings_say(
    v: EngineView,
    cfg: VoiceConfig,
    hf: HandsFreeView,
    probe: ReloadProbe,
)
    ensures
        ({
            let a = reloaded(v, cfg, hf, probe);
            &&& a.cfg == cfg
            &&& a.hands_free == hf
            &&& a.long_press_ms == (if cfg.long_press_ms == 0 {
                600
            } else {
                cfg.long_press_ms
            })
            &&& a.caps_enabled == (cfg.caps && probe.preflight)
            &&& a.listener == (cfg.listen_mode == ListenMode::Always)
            &&& a.stt_is_local == probe.local_stt
            &&& a.pending_enter_at == v.pending_enter_at
            &&& a.outbox == v.outbox
            &&& a.fx.last() == Effect::QueueConfig
        }),
{
    lemma_after_reload(v, cfg, hf, probe);
    reveal(after_reload);
}

// The stages of a reading of the settings, each on its own.

#[verifier::opaque]
spec fn after_reload(
    v: EngineView,
    cfg: VoiceConfig,
    hf: HandsFreeView,
    probe: ReloadProbe,
) -> EngineView {
    reloaded(v, cfg, hf, probe)
}

#[verifier::opaque]
spec fn key_set(v: EngineView, on: bool) -> EngineView {
    gated(v, on)
}

#[verifier::opaque]
spec fn told(v: EngineView, cfg: VoiceConfig) -> EngineView {
    EngineView {
        long_press_ms: if cfg.long_press_ms == 0 {
            600
        } else {
            cfg.long_press_ms
        },
        fx: v.fx.push(Effect::ExtraTargets),
        ..v
    }
}

proof fn lemma_reload_stages(
    v: EngineView,
    cfg: VoiceConfig,
    hf: HandsFreeView,
    probe: ReloadProbe,
)
    ensures
        after_reload(v, cfg, hf, probe) == settings_taken(
            listener_followed(
                helper_followed(
                    key_set(
                        stt_followed(told(v, cfg), cfg, probe),
                        cfg.caps && probe.preflight,
                    ),
                    cfg,
                ),
                cfg.listen_mode == ListenMode::Always,
                listener_outdated(v, cfg, hf, probe),
            ),
            cfg,
            hf,
        ),
{
    reveal(after_reload);
    reveal(key_set);
    reveal(told);
}

proof fn lemma_after_reload(v: EngineView, cfg: VoiceConfig, hf: HandsFreeView, probe: ReloadProbe)
    ensures
        ({
            let a = after_reload(v, cfg, hf, probe);
            &&& a.cfg == cfg
            &&& a.hands_free == hf
            &&& a.long_press_ms == (if cfg.long_press_ms == 0 {
                600
            } else {
                cfg.long_press_ms
            })
            &&& a.caps_enabled == (cfg.caps && probe.preflight)
            &&& a.listener == (cfg.listen_mode == ListenMode::Always)
            &&& a.stt_is_local == probe.local_stt
            &&& a.pending_enter_at == v.pending_enter_at
            &&& a.outbox == v.outbox
            &&& a.fx.last() == Effect::QueueConfig
        }),
{
    lemma_reload_stages(v, cfg, hf, probe);
    let a = told(v, cfg);
    lemma_told_keeps(v, cfg);
    let b = stt_followed(a, cfg, probe);
    lemma_stt_followed_keeps(a, cfg, probe);
    let c = key_set(b, cfg.caps && probe.preflight);
    lemma_key_set_keeps(b, cfg.caps && probe.preflight);
    let d = helper_followed(c, cfg);
    lemma_helper_followed_keeps(c, cfg);
    let outdated = listener_outdated(v, cfg, hf, probe);
    let e = listener_followed(d, cfg.listen_mode == ListenMode::Always, outdated);
    lemma_listener_followed_keeps(d, cfg.listen_mode == ListenMode::Always, outdated);
    lemma_settings_taken_keeps(e, cfg, hf);
}

proof fn lemma_told_keeps(v: EngineView, cfg: VoiceConfig)
    ensures
        ({
            let a = told(v, cfg);
            a.long_press_ms == (if cfg.long_press_ms == 0 {
                600
            } else {
                cfg.long_press_ms
            }) && a.outbox == v.outbox && a.pending_enter_at == v.pending_enter_at
        }),
{
    reveal(told);
}

proof fn lemma_settings_taken_keeps(v: EngineView, cfg: VoiceConfig, hf: HandsFreeView)
    ensures
        ({
            let a = settings_taken(v, cfg, hf);
            a.cfg == cfg && a.hands_free == hf && a.listener == v.listener && a.caps_enabled
                == v.caps_enabled && a.stt_is_local == v.stt_is_local && a.long_press_ms
                == v.long_press_ms && a.outbox == v.outbox && a.pending_enter_at
                == v.pending_enter_at && a.fx.last() == Effect::QueueConfig
        }),
{
    reveal(settings_taken);
}

proof fn lemma_stt_followed_keeps(v: EngineView, cfg: VoiceConfig, probe: ReloadProbe)
    ensures
        ({
            let a = stt_followed(v, cfg, probe);
            a.stt_is_local == probe.local_stt && a.long_press_ms == v.long_press_ms && a.listener
                == v.listener && a.outbox == v.outbox && a.pending_enter_at == v.pending_enter_at
        }),
{
    reveal(stt_followed);
}

proof fn lemma_key_set_keeps(v: EngineView, on: bool)
    ensures
        ({
            let a = key_set(v, on);
            a.caps_enabled == on && a.stt_is_local == v.stt_is_local && a.long_press_ms
                == v.long_press_ms && a.listener == v.listener && a.outbox == v.outbox
                && a.pending_enter_at == v.pending_enter_at
        }),
{
    reveal(key_set);
}

proof fn lemma_helper_followed_keeps(v: EngineView, cfg: VoiceConfig)
    ensures
        ({
            let a = helper_followed(v, cfg);
            a.caps_enabled == v.caps_enabled && a.stt_is_local == v.stt_is_local
                && a.long_press_ms == v.long_press_ms && a.listener == v.listener && a.outbox
                == v.outbox && a.pending_enter_at == v.pending_enter_at
        }),
{
    reveal(helper_followed);
}

proof fn lemma_listener_followed_keeps(v: EngineView, always: bool, outdated: bool)
    ensures
        ({
            let a = listener_followed(v, always, outdated);
            a.listener == always && a.caps_enabled == v.caps_enabled && a.stt_is_local
                == v.stt_is_local && a.long_press_ms == v.long_press_ms && a.outbox == v.outbox
                && a.pending_enter_at == v.pending_enter_at
        }),
{
    reveal(listener_followed);
}

/// Hands-free dictation is outdated where any of what it is made of has changed: its words,
/// its times, the mode, or what transcribes.
pub proof fn law_when_the_listener_is_outdated(
    v: EngineView,
    cfg: VoiceConfig,
    hf: HandsFreeView,
    probe: ReloadProbe,
)
    ensures
        listener_outdated(v, cfg, hf, probe) <==> {
            ||| hf.start != v.hands_free.start
            ||| hf.submit != v.hands_free.submit
            ||| hf.cancel != v.hands_free.cancel
            ||| cfg.listen_mode != v.cfg.listen_mode
            ||| cfg.submit_confirm_ms != v.cfg.submit_confirm_ms
            ||| cfg.endpoint_silence_ms != v.cfg.endpoint_silence_ms
            ||| cfg.stt != v.cfg.stt
            ||| cfg.stt_provider != v.cfg.stt_provider
            ||| probe.local_stt != v.stt_is_local
        },
{
}

/// The engine begins at rest: nothing is recorded, shown, waiting or held down; the key is
/// taken where the settings and the operating system let it.
pub proof fn law_engine_begins_at_rest(
    cfg: VoiceConfig,
    hf: HandsFreeView,
    long_press_ms: u64,
    preflight: bool,
)
    ensures
        ({
            let v = assembled(cfg, hf, long_press_ms, preflight);
            &&& v.gesture is Idle && v.press is Up && !v.voice_paused && !v.listener
            &&& v.pending_tap_at is None && v.pending_enter_at is None && v.outbox is None
            &&& !v.shared.stt_active && v.shared.paste.final_state is Idle
                && v.shared.paste.partial.len() == 0 && v.shared.paste.refused_until is None
            &&& v.cfg == cfg && v.hands_free == hf && v.long_press_ms == long_press_ms
            &&& v.caps_enabled == (cfg.caps && preflight)
            &&& v.caps_enabled ==> v.fx == seq![Effect::ExtraTargets, Effect::AcquireKey]
            &&& !v.caps_enabled ==> v.fx == seq![Effect::ExtraTargets]
        }),
{
    assert(seq![Effect::ExtraTargets].push(Effect::AcquireKey) =~= seq![
        Effect::ExtraTargets,
        Effect::AcquireKey,
    ]);
}

/// A cancel ends everything that is under way, and neither pastes nor types anything.
pub proof fn law_cancel_ends_everything(v: EngineView)
    ensures
        ({
            let a = cancelled(v);
            &&& a.gesture is Idle && a.pending_tap_at is None && a.pending_enter_at is None
            &&& a.shared.paste.final_state is Idle && a.shared.paste.partial.len() == 0
            &&& a.shared.paste.refused_until is None && a.shared.paste.epoch
                != v.shared.paste.epoch
            &&& !a.shared.stt_active
            &&& a.outbox == v.outbox
            &&& times(a.fx, Effect::Paste) == times(v.fx, Effect::Paste)
            &&& times(a.fx, Effect::PressEnter) == times(v.fx, Effect::PressEnter)
            &&& times(a.fx, Effect::ClearVoice) == times(v.fx, Effect::ClearVoice) + 1
            &&& times(a.fx, Effect::BargeOutside) == times(v.fx, Effect::BargeOutside) + 1
            &&& times(a.fx, Effect::SttAbort) == times(v.fx, Effect::SttAbort) + (
            if v.gesture is Recording {
                1nat
            } else {
                0nat
            })
            &&& a.fx.last() == Effect::Record(CapsKind::Cancel)
        }),
{
    broadcast use lemma_times_push;

}

/// A text that is pasted without a gesture that says otherwise is submitted.
pub proof fn law_text_is_submitted_unless_said_otherwise(
    v: EngineView,
    text: Seq<char>,
    now: u64,
)
    requires
        !(v.gesture is ConfirmArmed),
        v.shared.paste.final_state == FinalView::Ready(text),
        v.cfg.paste_submit_delay_ms == 0,
    ensures
        ({
            let a = confirmed(v, now);
            &&& a.outbox == Some(text)
            &&& a.fx == v.fx + seq![
                Effect::Paste,
                Effect::CancelSpeech {
                    current: v.cfg.clears_current,
                    other: v.cfg.clears_other,
                },
                Effect::PressEnter,
                Effect::NoteVoiceSubmit,
                Effect::Record(CapsKind::Confirm),
            ]
            &&& a.gesture == v.gesture
        }),
{
    assert(confirmed(v, now).fx =~= v.fx + seq![
        Effect::Paste,
        Effect::CancelSpeech { current: v.cfg.clears_current, other: v.cfg.clears_other },
        Effect::PressEnter,
        Effect::NoteVoiceSubmit,
        Effect::Record(CapsKind::Confirm),
    ]);
}

} // verus!
