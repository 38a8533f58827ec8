//! The state of dictation and of everything that the Caps Lock key drives.
//!
//! The engine decides; what it decides is written down, in order, for the caller to
//! carry out on the keyboard, the microphone, the voice and the helper.

use crate::config::{HandsFree, HandsFreeView, ListenMode, Provider, SttEngine, VoiceConfig};
use crate::config_gate::{
    caps_loop_enabled, full_duplex_wanted, helper_needed, helper_stt_provider, helper_uses_stt,
    helper_uses_tts, normalize_long_press, overlaps, refusal_cue_on_refused_start, shows_refusal,
    speaks, startable, stt_can_start, transcribes, HelperStt, DEFAULT_LONG_PRESS_MS,
};
use crate::engine::gesture::{
    caps_tap_action, pairs_with, tap_decision, tap_meaning, tap_timing, within_double_tap, CapsEdge,
    CapsTap, GestureState, PressState, TapAction, DOUBLE_TAP_MS,
};
use crate::engine::paste::{
    armed_paste, dictation_preview, disarmed_paste, dropped_paste, fresh_paste, preview,
    refusal_live, refusal_shown, FinalState, FinalView, PasteView, DICTATION_REFUSAL_MS,
};
use crate::listener::{with_active, ListenerShared, SharedView};
use crate::status::{bumped, CapsKind, StatusGate};
use crate::text::{copy_opt, same_text, text_opt};
use vstd::prelude::*;

verus! {

/// What the helper is told of the settings.
#[derive(Debug, Clone, Copy, PartialEq, Eq, Structural)]
pub struct HelperPrefs {
    pub full_duplex: bool,
    pub stt: HelperStt,
    pub uses_stt: bool,
    pub uses_tts: bool,
    pub tts_provider: Provider,
}

/// What the caller is to do.
#[derive(Debug, Clone, Copy, PartialEq, Eq, Structural)]
pub enum Effect {
    /// Set the light of the key.
    Led(bool),
    /// Open the microphone and transcribe.
    SttStart,
    /// Close the microphone and make the final text.
    SttStop,
    /// Close the microphone and drop what was said.
    SttAbort,
    /// Take the key away from the operating system and, where that succeeds, put Caps Lock
    /// out.
    AcquireKey,
    /// Give the key back.
    ReleaseKey,
    /// Drop the movements of the key that are queued.
    DrainKey,
    /// Pause the voice; what it would say is kept.
    PauseVoice,
    /// Resume the voice.
    ResumeVoice,
    /// Silence the voice and drop what it would say.
    ClearVoice,
    /// Skip the message that is being spoken.
    SkipMessage,
    /// Stop a speaker outside the engine.
    BargeOutside,
    /// Start the helper again if it has died.
    HealHelper,
    /// Silence the speech of the session that is submitted to, and of the others.
    CancelSpeech { current: bool, other: bool },
    /// Paste the text that waits.
    Paste,
    /// Press Enter.
    PressEnter,
    /// Note that Enter was pressed for the user.
    NoteVoiceSubmit,
    /// Tell the voice whether a terminal is in front, and whether it pauses without one.
    TerminalFront { front: bool, pause_in_background: bool },
    /// Let hands-free dictation make a tick.
    ListenerTick { busy: bool, cancel_current: bool, cancel_other: bool },
    /// Write down an event of the key.
    Record(CapsKind),
    /// Tell the platform which other programs take text.
    ExtraTargets,
    /// Make what transcribes anew: the helper, or what stands in for it.
    BuildStt { local: bool },
    /// Tell the helper of the settings.
    SetHelperPrefs(HelperPrefs),
    /// Run the helper or not.
    EnableHelper(bool),
    /// Make the helper hold the models that are selected.
    ReconcileModels,
    /// Start the helper again if it runs with an outdated mode.
    RestartIfStale,
    /// Make hands-free dictation anew.
    BuildListener,
    /// End hands-free dictation.
    DropListener,
    /// Set the pause of hands-free dictation between a paste and the Enter key.
    ListenerDelay(u64),
    /// Tell the voice of the settings.
    QueueConfig,
}

/// What the engine sees when it decides.
#[derive(Debug, PartialEq, Eq)]
pub struct Observed {
    /// The time, in milliseconds.
    pub now: u64,
    /// A terminal is in front.
    pub terminal_front: bool,
    /// There is something to paste into.
    pub paste_target: bool,
    /// The helper listens and speaks at the same time.
    pub full_duplex: bool,
    /// The voice is speaking.
    pub speaking: bool,
    /// The voice is speaking or has something to say.
    pub busy: bool,
    /// The transcribing model is loaded.
    pub stt_loaded: bool,
    /// The recognizer of the operating system is ready.
    pub system_ready: bool,
    /// What transcribes hands over a final text to be pasted.
    pub defers_paste: bool,
    /// The application in front.
    pub frontmost: Option<String>,
    /// The key is down.
    pub caps_down: bool,
    /// The movements of the key are queued, so that none is missed.
    pub event_driven: bool,
}

/// What a change of the settings depends on besides them.
#[derive(Debug, Clone, Copy, PartialEq, Eq, Structural)]
pub struct ReloadProbe {
    /// The operating system lets the engine drive the key.
    pub preflight: bool,
    /// The helper can transcribe now.
    pub local_stt: bool,
}

struct Published {
    text: String,
    awaiting: bool,
    has_target: bool,
    refused: bool,
}

/// What was last shown of a dictation.
pub struct PublishedView {
    pub text: Seq<char>,
    pub awaiting: bool,
    pub has_target: bool,
    pub refused: bool,
}

/// The engine.
pub struct Engine {
    /// What dictation by the key and hands-free dictation share.
    shared: ListenerShared,
    gesture: GestureState,
    voice_paused: bool,
    caps_phys_prev: bool,
    long_press_ms: u64,
    press: PressState,
    pending_tap_at: Option<u64>,
    pending_enter_at: Option<u64>,
    cfg: VoiceConfig,
    hands_free: HandsFree,
    caps_enabled: bool,
    listener: bool,
    stt_is_local: bool,
    published: Option<Published>,
    fx: Vec<Effect>,
    outbox: Option<String>,
}

/// An [`Engine`] as a mathematical value.
#[verifier::ext_equal]
pub struct EngineView {
    pub shared: SharedView,
    /// What dictation is doing.
    pub gesture: GestureState,
    /// The voice was paused by a tap while dictation is off.
    pub voice_paused: bool,
    /// The key was down at the last look.
    pub caps_phys_prev: bool,
    /// How long a press must be held to cancel.
    pub long_press_ms: u64,
    /// Whether the key is down.
    pub press: PressState,
    /// When a tap came that waits for a second one.
    pub pending_tap_at: Option<u64>,
    /// When Enter is to be pressed.
    pub pending_enter_at: Option<u64>,
    /// The settings.
    pub cfg: VoiceConfig,
    pub hands_free: HandsFreeView,
    /// The key drives dictation.
    pub caps_enabled: bool,
    /// Hands-free dictation exists.
    pub listener: bool,
    /// The helper transcribes.
    pub stt_is_local: bool,
    /// What was last shown of a dictation.
    pub published: Option<PublishedView>,
    /// What is to be done, in order.
    pub fx: Seq<Effect>,
    /// The text that waits to be pasted.
    pub outbox: Option<Seq<char>>,
}

impl View for Engine {
    type V = EngineView;

    closed spec fn view(&self) -> EngineView {
        EngineView {
            shared: self.shared@,
            gesture: self.gesture,
            voice_paused: self.voice_paused,
            caps_phys_prev: self.caps_phys_prev,
            long_press_ms: self.long_press_ms,
            press: self.press,
            pending_tap_at: self.pending_tap_at,
            pending_enter_at: self.pending_enter_at,
            cfg: self.cfg,
            hands_free: self.hands_free@,
            caps_enabled: self.caps_enabled,
            listener: self.listener,
            stt_is_local: self.stt_is_local,
            published: match self.published {
                Some(p) => Some(
                    PublishedView {
                        text: p.text@,
                        awaiting: p.awaiting,
                        has_target: p.has_target,
                        refused: p.refused,
                    },
                ),
                None => None,
            },
            fx: self.fx@,
            outbox: text_opt(self.outbox),
        }
    }
}

// ── Parts of a decision ──────────────────────────────────────────────────────

/// Something more is to be done.
pub open spec fn emit(v: EngineView, e: Effect) -> EngineView {
    EngineView { fx: v.fx.push(e), ..v }
}

/// Whether a dictation is being recorded.
pub open spec fn recording(v: EngineView) -> bool {
    v.gesture is Recording
}

/// The light shows whether a dictation is being recorded.
pub open spec fn synced(v: EngineView) -> EngineView {
    emit(v, Effect::Led(recording(v)))
}

/// The dictation that is under way, changed.
pub open spec fn with_paste(v: EngineView, p: PasteView) -> EngineView {
    EngineView { shared: SharedView { paste: p, ..v.shared }, ..v }
}

/// A dictation is shown as being recorded or not.
pub open spec fn shown_active(v: EngineView, on: bool) -> EngineView {
    EngineView { shared: with_active(v.shared, on), ..v }
}

/// The microphone is closed and what was said is dropped, where it is open.
pub open spec fn mic_aborted(v: EngineView) -> EngineView {
    if recording(v) {
        emit(v, Effect::SttAbort)
    } else {
        v
    }
}

/// The dictation ends for a reason of the engine's own: the voice is left alone.
pub open spec fn torn_down(v: EngineView) -> EngineView {
    let a = synced(EngineView { gesture: GestureState::Idle, ..mic_aborted(v) });
    shown_active(with_paste(a, dropped_paste(a.shared.paste)), false)
}

/// No final text is waited for any more.
pub open spec fn disarmed(v: EngineView) -> EngineView {
    let a = if v.gesture is ConfirmArmed {
        synced(EngineView { gesture: GestureState::Idle, ..v })
    } else {
        v
    };
    with_paste(a, disarmed_paste(a.shared.paste))
}

/// Enter is pressed for the user.
pub open spec fn entered(v: EngineView) -> EngineView {
    emit(emit(v, Effect::PressEnter), Effect::NoteVoiceSubmit)
}

/// Whether Enter is pressed after the paste.
pub open spec fn submits(v: EngineView) -> bool {
    match v.gesture {
        GestureState::ConfirmArmed { enter_after_paste, .. } => enter_after_paste,
        _ => true,
    }
}

/// The dictation is over: its text has been taken.
pub open spec fn text_taken(v: EngineView) -> EngineView {
    with_paste(
        v,
        PasteView {
            partial: Seq::empty(),
            target: None,
            final_state: FinalView::Idle,
            ..v.shared.paste
        },
    )
}

/// The text of a dictation is submitted: the speech that it silences is silenced at once,
/// and Enter is pressed after the pause.
pub open spec fn submitted(v: EngineView, now: u64) -> EngineView {
    let cleared = emit(
        v,
        Effect::CancelSpeech { current: v.cfg.clears_current, other: v.cfg.clears_other },
    );
    if v.cfg.paste_submit_delay_ms > 0 {
        EngineView {
            pending_enter_at: Some(now.saturating_add(v.cfg.paste_submit_delay_ms)),
            ..cleared
        }
    } else {
        entered(cleared)
    }
}

/// The final text is pasted, whatever is in front, and submitted or only inserted.
pub open spec fn confirmed(v: EngineView, now: u64) -> EngineView {
    let a = text_taken(v);
    let b = match v.shared.paste.final_state {
        FinalView::Ready(text) => {
            let pasted = emit(EngineView { outbox: Some(text), ..a }, Effect::Paste);
            if submits(v) {
                submitted(pasted, now)
            } else {
                pasted
            }
        },
        _ => a,
    };
    emit(disarmed(b), Effect::Record(CapsKind::Confirm))
}

/// Everything is cancelled: the dictation is dropped, the voice is silenced, and nothing
/// waits any more.
pub open spec fn cancelled(v: EngineView) -> EngineView {
    let a = mic_aborted(EngineView { pending_tap_at: None, ..v });
    let b = emit(emit(a, Effect::ClearVoice), Effect::BargeOutside);
    let c = shown_active(synced(EngineView { gesture: GestureState::Idle, ..b }), false);
    let d = with_paste(
        c,
        PasteView { refused_until: None, ..dropped_paste(c.shared.paste) },
    );
    emit(EngineView { pending_enter_at: None, ..d }, Effect::Record(CapsKind::Cancel))
}

/// A dictation begins, where none is recorded and dictation is on.
pub open spec fn recording_started(v: EngineView, o: Observed) -> EngineView {
    if recording(v) || v.cfg.stt is None {
        v
    } else {
        let a = emit(v, Effect::PauseVoice);
        let b = if o.full_duplex {
            a
        } else {
            emit(a, Effect::BargeOutside)
        };
        let c = synced(EngineView { gesture: GestureState::Recording, ..b });
        let d = with_paste(
            c,
            PasteView {
                target: text_opt(o.frontmost),
                refused_until: None,
                ..dropped_paste(c.shared.paste)
            },
        );
        emit(
            emit(shown_active(d, true), Effect::SttStart),
            Effect::Record(CapsKind::Start),
        )
    }
}

/// The dictation ends, where one is recorded: its final text is waited for where what
/// transcribes hands one over.
pub open spec fn recording_stopped(v: EngineView, o: Observed) -> EngineView {
    if !recording(v) {
        v
    } else {
        let a = emit(synced(EngineView { gesture: GestureState::Idle, ..v }), Effect::SttStop);
        let b = emit(shown_active(a, false), Effect::ResumeVoice);
        let c = if o.defers_paste {
            with_paste(
                EngineView {
                    gesture: GestureState::ConfirmArmed {
                        stop_tap_at: Some(o.now),
                        double_pending: false,
                        enter_after_paste: !v.cfg.double_tap_submits,
                    },
                    ..b
                },
                armed_paste(b.shared.paste),
            )
        } else {
            b
        };
        emit(c, Effect::Record(CapsKind::Stop))
    }
}

/// Whether a dictation can go on or begin.
pub open spec fn ready(v: EngineView, o: Observed) -> bool {
    recording(v) || startable(v.cfg.stt, o.stt_loaded, o.system_ready)
}

/// A tap that cannot begin a dictation is answered: a helper that may have died is
/// looked after, and a sign is shown where there is something to wait for.
pub open spec fn refused(v: EngineView, o: Observed) -> EngineView {
    let a = if v.cfg.stt == Some(SttEngine::BuiltIn) {
        emit(v, Effect::HealHelper)
    } else {
        v
    };
    if shows_refusal(v.cfg.stt) {
        emit(
            with_paste(
                a,
                PasteView {
                    refused_until: Some(o.now.saturating_add(DICTATION_REFUSAL_MS)),
                    ..a.shared.paste
                },
            ),
            Effect::Record(CapsKind::Refused),
        )
    } else {
        a
    }
}

/// A tap takes effect.
pub open spec fn toggled(v: EngineView, o: Observed) -> EngineView {
    let a = if ready(v, o) {
        v
    } else {
        refused(v, o)
    };
    match tap_meaning(v.cfg.stt is Some, ready(v, o), recording(v), v.voice_paused) {
        CapsTap::StartRecord => recording_started(a, o),
        CapsTap::StopRecord => recording_stopped(a, o),
        CapsTap::Refused => a,
        CapsTap::PauseVoice => EngineView { voice_paused: true, ..emit(a, Effect::PauseVoice) },
        CapsTap::ResumeVoice => EngineView { voice_paused: false, ..emit(a, Effect::ResumeVoice) },
    }
}

/// A tap has come.
pub open spec fn tapped(v: EngineView, at: u64, o: Observed) -> EngineView {
    match v.gesture {
        GestureState::ConfirmArmed { double_pending: true, enter_after_paste, .. } => EngineView {
            gesture: GestureState::ConfirmArmed {
                stop_tap_at: None,
                double_pending: false,
                enter_after_paste: !enter_after_paste,
            },
            ..v
        },
        _ => match tap_timing(o.speaking, v.pending_tap_at, at, DOUBLE_TAP_MS) {
            TapAction::Immediate => toggled(EngineView { pending_tap_at: None, ..v }, o),
            TapAction::Skip => emit(EngineView { pending_tap_at: None, ..v }, Effect::SkipMessage),
            TapAction::Defer => EngineView { pending_tap_at: Some(at), ..v },
        },
    }
}

/// The key has gone down or up. A press that begins soon after the tap that ended a
/// dictation counts with it; a release is a tap, unless the press has cancelled.
pub open spec fn edge_applied(v: EngineView, e: CapsEdge, o: Observed) -> EngineView {
    let a = with_paste(v, PasteView { caps_held: e.down, ..v.shared.paste });
    if e.down {
        let b = EngineView {
            press: PressState::Down { since: e.at, long_press_fired: false },
            gesture: match a.gesture {
                GestureState::ConfirmArmed { stop_tap_at, double_pending, enter_after_paste } =>
                    GestureState::ConfirmArmed {
                        stop_tap_at,
                        double_pending: pairs_with(stop_tap_at, e.at, DOUBLE_TAP_MS),
                        enter_after_paste,
                    },
                g => g,
            },
            ..a
        };
        emit(b, Effect::Record(CapsKind::Press))
    } else {
        let b = emit(
            EngineView { press: PressState::Up, ..a },
            Effect::Record(CapsKind::Release),
        );
        match v.press {
            PressState::Down { long_press_fired: false, .. } => tapped(b, e.at, o),
            _ => b,
        }
    }
}

/// Movements of the key, one after the other.
pub open spec fn edges_applied(v: EngineView, edges: Seq<CapsEdge>, o: Observed) -> EngineView
    decreases edges.len(),
{
    if edges.len() == 0 {
        v
    } else {
        edge_applied(edges_applied(v, edges.drop_last(), o), edges.last(), o)
    }
}

/// One more movement of the key.
proof fn lemma_edges_step(v: EngineView, edges: Seq<CapsEdge>, n: int, o: Observed)
    requires
        0 <= n < edges.len(),
    ensures
        edges_applied(v, edges.take(n + 1), o) == edge_applied(
            edges_applied(v, edges.take(n), o),
            edges[n],
            o,
        ),
{
    assert(edges.take(n + 1).drop_last() =~= edges.take(n));
}

/// A press that is held long enough cancels everything, once; and while the key is down
/// the light is set again, since the operating system flips it.
pub open spec fn hold_checked(v: EngineView, now: u64) -> EngineView {
    match v.press {
        PressState::Up => v,
        PressState::Down { since, long_press_fired } => {
            let a = if !long_press_fired && now.saturating_sub(since) >= v.long_press_ms {
                EngineView {
                    press: PressState::Down { since, long_press_fired: true },
                    ..cancelled(v)
                }
            } else {
                v
            };
            synced(a)
        },
    }
}

/// A tap that waited for a second one in vain takes effect, unless the key is down.
pub open spec fn pending_tap_checked(v: EngineView, o: Observed) -> EngineView {
    if v.press is Up && v.pending_tap_at is Some && !pairs_with(
        v.pending_tap_at,
        o.now,
        DOUBLE_TAP_MS,
    ) {
        toggled(EngineView { pending_tap_at: None, ..v }, o)
    } else {
        v
    }
}

/// Enter is pressed when its time has come.
pub open spec fn pending_enter_checked(v: EngineView, now: u64) -> EngineView {
    if v.pending_enter_at is Some && now >= v.pending_enter_at->0 {
        entered(EngineView { pending_enter_at: None, ..v })
    } else {
        v
    }
}

/// Whether the final text must wait: the key is down, so that the press may yet cancel,
/// or a second tap may yet come.
pub open spec fn submit_held(v: EngineView, now: u64) -> bool {
    v.press is Down || match v.gesture {
        GestureState::ConfirmArmed { stop_tap_at, double_pending, .. } => double_pending
            || pairs_with(stop_tap_at, now, DOUBLE_TAP_MS),
        _ => false,
    }
}

/// A final text that has come and need not wait is pasted; an empty one is done with.
pub open spec fn submit_checked(v: EngineView, now: u64) -> EngineView {
    if v.gesture is ConfirmArmed && !submit_held(v, now) {
        match v.shared.paste.final_state {
            FinalView::Ready(_) => confirmed(v, now),
            FinalView::Empty => emit(disarmed(v), Effect::Record(CapsKind::Confirm)),
            _ => v,
        }
    } else {
        v
    }
}

/// What is shown of the dictation now.
pub open spec fn shown(v: EngineView, now: u64) -> PublishedView {
    let p = v.shared.paste;
    let (text, awaiting) = preview(p.final_state, p.partial, p.caps_held);
    PublishedView {
        text,
        awaiting,
        has_target: p.has_paste_target,
        refused: refusal_shown(p.refused_until, now),
    }
}

/// The counter moves where what is shown has changed.
pub open spec fn status_published(v: EngineView, now: u64) -> EngineView {
    if v.published == Some(shown(v, now)) {
        v
    } else {
        EngineView {
            published: Some(shown(v, now)),
            shared: SharedView { gate: bumped(v.shared.gate), ..v.shared },
            ..v
        }
    }
}

/// What every tick does first, whatever the mode.
pub open spec fn tick_begun(v: EngineView, o: Observed) -> EngineView {
    let a = pending_enter_checked(v, o.now);
    let b = emit(
        a,
        Effect::TerminalFront {
            front: !v.cfg.pause_in_background || o.terminal_front,
            pause_in_background: v.cfg.pause_in_background,
        },
    );
    let p = b.shared.paste;
    let c = if b.shared.stt_active || !(p.final_state is Idle) {
        with_paste(b, PasteView { has_paste_target: o.paste_target || o.terminal_front, ..p })
    } else {
        b
    };
    status_published(c, o.now)
}

/// The movements of the key that a mode without gestures leaves over are dropped.
pub open spec fn backlog_dropped(v: EngineView, o: Observed) -> EngineView {
    if o.event_driven {
        emit(v, Effect::DrainKey)
    } else {
        v
    }
}

/// The movements of the key since the last tick.
pub open spec fn key_followed(v: EngineView, edges: Seq<CapsEdge>, o: Observed) -> EngineView {
    if o.event_driven {
        EngineView { caps_phys_prev: o.caps_down, ..edges_applied(v, edges, o) }
    } else {
        let a = EngineView { caps_phys_prev: o.caps_down, ..v };
        if o.caps_down != v.caps_phys_prev {
            edge_applied(a, CapsEdge { down: o.caps_down, at: o.now }, o)
        } else {
            a
        }
    }
}

/// A tick.
pub open spec fn ticked(v: EngineView, edges: Seq<CapsEdge>, o: Observed) -> EngineView {
    let a = tick_begun(v, o);
    if v.cfg.listen_mode == ListenMode::Always {
        let b = if v.listener {
            emit(
                a,
                Effect::ListenerTick {
                    busy: o.busy,
                    cancel_current: v.cfg.clears_current,
                    cancel_other: v.cfg.clears_other,
                },
            )
        } else {
            a
        };
        backlog_dropped(b, o)
    } else if !v.caps_enabled {
        backlog_dropped(a, o)
    } else {
        let b = hold_checked(key_followed(a, edges, o), o.now);
        submit_checked(pending_tap_checked(b, o), o.now)
    }
}

/// The key drives dictation from now on, or no longer. It is taken or given back on a
/// change, and whatever is under way ends where it no longer does.
pub open spec fn gated(v: EngineView, now_on: bool) -> EngineView {
    let a = if !now_on && !(v.gesture is Idle) {
        torn_down(v)
    } else {
        v
    };
    if now_on == v.caps_enabled {
        a
    } else {
        let b = if now_on {
            emit(a, Effect::AcquireKey)
        } else {
            emit(synced(EngineView { press: PressState::Up, ..a }), Effect::ReleaseKey)
        };
        EngineView {
            caps_enabled: now_on,
            shared: SharedView { gate: bumped(b.shared.gate), ..b.shared },
            ..b
        }
    }
}

/// What the helper is told of the settings.
pub open spec fn prefs_of(cfg: VoiceConfig) -> HelperPrefs {
    HelperPrefs {
        full_duplex: overlaps(cfg),
        stt: if cfg.stt == Some(SttEngine::System) {
            HelperStt::System
        } else {
            HelperStt::Runtime(cfg.stt_provider)
        },
        uses_stt: transcribes(cfg),
        uses_tts: speaks(cfg),
        tts_provider: cfg.tts_provider,
    }
}

/// Whether what transcribes has changed between two settings.
pub open spec fn stt_changed(new: VoiceConfig, before: VoiceConfig) -> bool {
    new.stt != before.stt || new.stt_provider != before.stt_provider
}

/// Whether what hands-free dictation is made of has changed.
pub open spec fn listener_outdated(
    v: EngineView,
    cfg: VoiceConfig,
    hf: HandsFreeView,
    probe: ReloadProbe,
) -> bool {
    cfg.listen_mode != v.cfg.listen_mode || hf != v.hands_free || cfg.submit_confirm_ms
        != v.cfg.submit_confirm_ms || cfg.endpoint_silence_ms != v.cfg.endpoint_silence_ms
        || probe.local_stt != v.stt_is_local || stt_changed(cfg, v.cfg)
}

/// Hands-free dictation is made where it is wanted and missing or outdated, and ended
/// where it is not wanted. Whatever dictation is under way ends with either.
#[verifier::opaque]
pub open spec fn listener_followed(v: EngineView, always: bool, outdated: bool) -> EngineView {
    if always {
        if !v.listener || outdated {
            let a = if v.gesture is Idle {
                v
            } else {
                torn_down(v)
            };
            emit(EngineView { listener: true, ..a }, Effect::BuildListener)
        } else {
            v
        }
    } else if v.listener {
        emit(EngineView { listener: false, ..torn_down(v) }, Effect::DropListener)
    } else {
        v
    }
}

/// What transcribes is made anew, where it has changed or can now be had.
#[verifier::opaque]
pub open spec fn stt_followed(v: EngineView, cfg: VoiceConfig, probe: ReloadProbe) -> EngineView {
    if stt_changed(cfg, v.cfg) || probe.local_stt != v.stt_is_local {
        EngineView {
            stt_is_local: probe.local_stt,
            ..emit(torn_down(v), Effect::BuildStt { local: probe.local_stt })
        }
    } else {
        v
    }
}

/// The helper follows a change of the settings.
#[verifier::opaque]
pub open spec fn helper_followed(v: EngineView, cfg: VoiceConfig) -> EngineView {
    let a = emit(v, Effect::SetHelperPrefs(prefs_of(cfg)));
    let b = if cfg.tts != v.cfg.tts || stt_changed(cfg, v.cfg) {
        emit(
            emit(a, Effect::EnableHelper(speaks(cfg) || transcribes(cfg))),
            Effect::ReconcileModels,
        )
    } else {
        a
    };
    emit(b, Effect::RestartIfStale)
}

/// The settings are taken over.
#[verifier::opaque]
pub open spec fn settings_taken(v: EngineView, cfg: VoiceConfig, hf: HandsFreeView) -> EngineView {
    let a = if v.listener {
        emit(v, Effect::ListenerDelay(cfg.paste_submit_delay_ms))
    } else {
        v
    };
    EngineView { cfg, hands_free: hf, ..emit(a, Effect::QueueConfig) }
}

/// The settings have changed. Only what they touch is disturbed.
pub open spec fn reloaded(
    v: EngineView,
    cfg: VoiceConfig,
    hf: HandsFreeView,
    probe: ReloadProbe,
) -> EngineView {
    let a = emit(
        EngineView {
            long_press_ms: if cfg.long_press_ms == 0 {
                DEFAULT_LONG_PRESS_MS
            } else {
                cfg.long_press_ms
            },
            ..v
        },
        Effect::ExtraTargets,
    );
    let b = gated(stt_followed(a, cfg, probe), cfg.caps && probe.preflight);
    let c = listener_followed(
        helper_followed(b, cfg),
        cfg.listen_mode == ListenMode::Always,
        listener_outdated(v, cfg, hf, probe),
    );
    settings_taken(c, cfg, hf)
}

/// The engine stops: nothing is left open, held or waiting.
pub open spec fn shut_down(v: EngineView) -> EngineView {
    let a = torn_down(v);
    let b = if a.listener {
        emit(EngineView { listener: false, ..a }, Effect::DropListener)
    } else {
        a
    };
    let c = EngineView {
        pending_tap_at: None,
        pending_enter_at: None,
        press: PressState::Up,
        ..b
    };
    emit(emit(gated(c, false), Effect::Led(false)), Effect::ReleaseKey)
}

/// The engine before anything has happened.
pub open spec fn assembled(
    cfg: VoiceConfig,
    hf: HandsFreeView,
    long_press_ms: u64,
    preflight: bool,
) -> EngineView {
    let on = cfg.caps && preflight;
    let told = seq![Effect::ExtraTargets];
    EngineView {
        shared: SharedView {
            paste: fresh_paste(),
            stt_active: false,
            gate: StatusGate { seq: 0 },
        },
        gesture: GestureState::Idle,
        voice_paused: false,
        caps_phys_prev: false,
        long_press_ms,
        press: PressState::Up,
        pending_tap_at: None,
        pending_enter_at: None,
        cfg,
        hands_free: hf,
        caps_enabled: on,
        listener: false,
        stt_is_local: false,
        published: None,
        fx: if on {
            told.push(Effect::AcquireKey)
        } else {
            told
        },
        outbox: None,
    }
}

// ── The engine ───────────────────────────────────────────────────────────────

impl Engine {
    /// What dictation by the key and hands-free dictation share.
    pub fn shared(&self) -> (r: &ListenerShared)
        ensures
            r@ == self@.shared,
    {
        &self.shared
    }

    /// What dictation by the key and hands-free dictation share, for others to write to:
    /// the rest of the engine stays as it is.
    pub fn shared_mut(&mut self) -> (r: &mut ListenerShared)
        ensures
            r@ == old(self)@.shared,
            final(self)@ == (EngineView { shared: final(r)@, ..old(self)@ }),
    {
        &mut self.shared
    }

    /// The engine before anything has happened. The key is taken only where it drives
    /// dictation from the start.
    pub fn assemble(cfg: &VoiceConfig, hands_free: &HandsFree, long_press_ms: u64, preflight: bool)
        -> (r: Self)
        ensures
            r@ == assembled(*cfg, hands_free@, long_press_ms, preflight),
    {
        let on = caps_loop_enabled(cfg) && preflight;
        let mut fx: Vec<Effect> = Vec::new();
        fx.push(Effect::ExtraTargets);
        if on {
            fx.push(Effect::AcquireKey);
        }
        let r = Engine {
            shared: ListenerShared::new(),
            gesture: GestureState::Idle,
            voice_paused: false,
            caps_phys_prev: false,
            long_press_ms,
            press: PressState::Up,
            pending_tap_at: None,
            pending_enter_at: None,
            cfg: *cfg,
            hands_free: hands_free.copy(),
            caps_enabled: on,
            listener: false,
            stt_is_local: false,
            published: None,
            fx,
            outbox: None,
        };
        assert(r@ =~= assembled(*cfg, hands_free@, long_press_ms, preflight));
        r
    }

    /// Takes what is to be done, in order.
    pub fn take_effects(&mut self) -> (r: Vec<Effect>)
        ensures
            r@ == old(self)@.fx,
            final(self)@ == (EngineView { fx: Seq::empty(), ..old(self)@ }),
    {
        let mut out: Vec<Effect> = Vec::new();
        out.append(&mut self.fx);
        out
    }

    /// Takes the text that waits to be pasted.
    pub fn take_paste(&mut self) -> (r: Option<String>)
        ensures
            text_opt(r) == old(self)@.outbox,
            final(self)@ == (EngineView { outbox: None, ..old(self)@ }),
    {
        self.outbox.take()
    }

    /// What dictation is doing.
    pub fn gesture(&self) -> (r: GestureState)
        ensures
            r == self@.gesture,
    {
        self.gesture
    }

    /// Whether the key is down.
    pub fn press(&self) -> (r: PressState)
        ensures
            r == self@.press,
    {
        self.press
    }

    /// Whether a dictation is being recorded.
    pub fn is_recording(&self) -> (r: bool)
        ensures
            r == recording(self@),
    {
        matches!(self.gesture, GestureState::Recording)
    }

    /// Whether the key drives dictation.
    pub fn caps_enabled(&self) -> (r: bool)
        ensures
            r == self@.caps_enabled,
    {
        self.caps_enabled
    }

    /// Whether hands-free dictation exists.
    pub fn has_listener(&self) -> (r: bool)
        ensures
            r == self@.listener,
    {
        self.listener
    }

    /// How long a press must be held to cancel.
    pub fn long_press_ms(&self) -> (r: u64)
        ensures
            r == self@.long_press_ms,
    {
        self.long_press_ms
    }

    /// Whether the voice was paused by a tap while dictation is off.
    pub fn voice_paused(&self) -> (r: bool)
        ensures
            r == self@.voice_paused,
    {
        self.voice_paused
    }

    /// The settings.
    pub fn cfg(&self) -> (r: VoiceConfig)
        ensures
            r == self@.cfg,
    {
        self.cfg
    }

    fn emit(&mut self, e: Effect)
        ensures
            final(self)@ == emit(old(self)@, e),
    {
        self.fx.push(e);
    }

    fn sync_caps_led(&mut self)
        ensures
            final(self)@ == synced(old(self)@),
    {
        let on = self.is_recording();
        self.emit(Effect::Led(on));
    }

    /// The dictation ends for a reason of the engine's own.
    pub fn teardown_hold(&mut self)
        ensures
            final(self)@ == torn_down(old(self)@),
    {
        if self.is_recording() {
            self.emit(Effect::SttAbort);
        }
        self.gesture = GestureState::Idle;
        self.sync_caps_led();
        self.shared.paste.drop_dictation();
        self.shared.set_stt_active(false);
    }

    fn disarm_confirm(&mut self)
        ensures
            final(self)@ == disarmed(old(self)@),
    {
        if matches!(self.gesture, GestureState::ConfirmArmed { .. }) {
            self.gesture = GestureState::Idle;
            self.sync_caps_led();
        }
        self.shared.paste.disarm();
    }

    fn press_deferred_enter(&mut self)
        ensures
            final(self)@ == entered(old(self)@),
    {
        self.emit(Effect::PressEnter);
        self.emit(Effect::NoteVoiceSubmit);
    }

    /// Takes the text of the dictation, where it has come.
    fn take_text(&mut self) -> (r: Option<String>)
        ensures
            text_opt(r) == (match old(self)@.shared.paste.final_state {
                FinalView::Ready(text) => Some(text),
                _ => None,
            }),
            final(self)@ == text_taken(old(self)@),
    {
        self.shared.paste.partial = String::new();
        self.shared.paste.target = None;
        let mut state = FinalState::Idle;
        std::mem::swap(&mut state, &mut self.shared.paste.final_state);
        match state {
            FinalState::Ready(text) => Some(text),
            _ => None,
        }
    }

    /// The text of a dictation is submitted.
    fn submit(&mut self, now: u64)
        ensures
            final(self)@ == submitted(old(self)@, now),
    {
        let current = self.cfg.clears_current;
        let other = self.cfg.clears_other;
        self.emit(Effect::CancelSpeech { current, other });
        if self.cfg.paste_submit_delay_ms > 0 {
            self.pending_enter_at = Some(now.saturating_add(self.cfg.paste_submit_delay_ms));
        } else {
            self.press_deferred_enter();
        }
    }

    /// The final text is pasted.
    fn confirm_paste(&mut self, now: u64)
        ensures
            final(self)@ == confirmed(old(self)@, now),
    {
        let enter_after_paste = match self.gesture {
            GestureState::ConfirmArmed { enter_after_paste, .. } => enter_after_paste,
            _ => true,
        };
        match self.take_text() {
            Some(text) => {
                self.outbox = Some(text);
                self.emit(Effect::Paste);
                if enter_after_paste {
                    self.submit(now);
                }
            },
            None => {},
        }
        self.disarm_confirm();
        self.emit(Effect::Record(CapsKind::Confirm));
    }

    /// Everything is cancelled.
    pub fn cancel_all(&mut self)
        ensures
            final(self)@ == cancelled(old(self)@),
    {
        self.pending_tap_at = None;
        if self.is_recording() {
            self.emit(Effect::SttAbort);
        }
        self.emit(Effect::ClearVoice);
        self.emit(Effect::BargeOutside);
        self.gesture = GestureState::Idle;
        self.sync_caps_led();
        self.shared.set_stt_active(false);
        self.shared.paste.drop_dictation();
        self.shared.paste.refused_until = None;
        self.pending_enter_at = None;
        self.emit(Effect::Record(CapsKind::Cancel));
        assert(self@ =~= cancelled(old(self)@));
    }

    /// A dictation begins, where none is recorded and dictation is on.
    pub fn start_recording(&mut self, o: &Observed)
        ensures
            final(self)@ == recording_started(old(self)@, *o),
    {
        if self.is_recording() {
            return;
        }
        if self.cfg.stt.is_none() {
            return;
        }
        self.emit(Effect::PauseVoice);
        if !o.full_duplex {
            self.emit(Effect::BargeOutside);
        }
        self.gesture = GestureState::Recording;
        self.sync_caps_led();
        self.shared.paste.drop_dictation();
        self.shared.paste.target = copy_opt(&o.frontmost);
        self.shared.paste.refused_until = None;
        self.shared.set_stt_active(true);
        self.emit(Effect::SttStart);
        self.emit(Effect::Record(CapsKind::Start));
        assert(self@ =~= recording_started(old(self)@, *o));
    }

    /// The dictation ends, where one is recorded.
    pub fn stop_recording(&mut self, o: &Observed)
        ensures
            final(self)@ == recording_stopped(old(self)@, *o),
    {
        if !self.is_recording() {
            return;
        }
        self.gesture = GestureState::Idle;
        self.sync_caps_led();
        self.emit(Effect::SttStop);
        self.shared.set_stt_active(false);
        self.emit(Effect::ResumeVoice);
        if o.defers_paste {
            self.gesture = GestureState::ConfirmArmed {
                stop_tap_at: Some(o.now),
                double_pending: false,
                enter_after_paste: !self.cfg.double_tap_submits,
            };
            self.shared.paste.arm();
        }
        self.emit(Effect::Record(CapsKind::Stop));
        assert(self@ =~= recording_stopped(old(self)@, *o));
    }

    /// A tap takes effect.
    pub fn toggle_dictation(&mut self, o: &Observed)
        ensures
            final(self)@ == toggled(old(self)@, *o),
    {
        let dictation_on = self.cfg.stt.is_some();
        let was_recording = self.is_recording();
        let ready = if was_recording {
            true
        } else {
            let ready = stt_can_start(self.cfg.stt, o.stt_loaded, o.system_ready);
            if !ready && matches!(self.cfg.stt, Some(SttEngine::BuiltIn)) {
                self.emit(Effect::HealHelper);
            }
            if !ready && refusal_cue_on_refused_start(self.cfg.stt) {
                self.shared.paste.refused_until = Some(
                    o.now.saturating_add(DICTATION_REFUSAL_MS),
                );
                self.emit(Effect::Record(CapsKind::Refused));
            }
            ready
        };
        match caps_tap_action(dictation_on, ready, was_recording, self.voice_paused) {
            CapsTap::StartRecord => {
                self.start_recording(o);
            },
            CapsTap::StopRecord => {
                self.stop_recording(o);
            },
            CapsTap::Refused => {},
            CapsTap::PauseVoice => {
                self.emit(Effect::PauseVoice);
                self.voice_paused = true;
            },
            CapsTap::ResumeVoice => {
                self.emit(Effect::ResumeVoice);
                self.voice_paused = false;
            },
        }
    }

    /// A tap has come.
    fn handle_tap(&mut self, at: u64, o: &Observed)
        ensures
            final(self)@ == tapped(old(self)@, at, *o),
    {
        match self.gesture {
            GestureState::ConfirmArmed { double_pending: true, enter_after_paste, .. } => {
                self.gesture = GestureState::ConfirmArmed {
                    stop_tap_at: None,
                    double_pending: false,
                    enter_after_paste: !enter_after_paste,
                };
                return;
            },
            _ => {},
        }
        match tap_decision(o.speaking, self.pending_tap_at, at, DOUBLE_TAP_MS) {
            TapAction::Immediate => {
                self.pending_tap_at = None;
                self.toggle_dictation(o);
            },
            TapAction::Skip => {
                self.pending_tap_at = None;
                self.emit(Effect::SkipMessage);
            },
            TapAction::Defer => {
                self.pending_tap_at = Some(at);
            },
        }
    }

    /// The key has gone down or up.
    pub fn apply_caps_edge(&mut self, e: CapsEdge, o: &Observed)
        ensures
            final(self)@ == edge_applied(old(self)@, e, *o),
    {
        self.shared.paste.caps_held = e.down;
        if e.down {
            self.press = PressState::Down { since: e.at, long_press_fired: false };
            match self.gesture {
                GestureState::ConfirmArmed { stop_tap_at, enter_after_paste, .. } => {
                    self.gesture = GestureState::ConfirmArmed {
                        stop_tap_at,
                        double_pending: within_double_tap(stop_tap_at, e.at),
                        enter_after_paste,
                    };
                },
                _ => {},
            }
            self.emit(Effect::Record(CapsKind::Press));
            assert(self@ =~= edge_applied(old(self)@, e, *o));
        } else {
            let was_tap = matches!(self.press, PressState::Down { long_press_fired: false, .. });
            self.press = PressState::Up;
            self.emit(Effect::Record(CapsKind::Release));
            if was_tap {
                self.handle_tap(e.at, o);
            }
        }
    }

    fn check_long_press(&mut self, now: u64)
        ensures
            final(self)@ == hold_checked(old(self)@, now),
    {
        match self.press {
            PressState::Up => {},
            PressState::Down { since, long_press_fired } => {
                if !long_press_fired && now.saturating_sub(since) >= self.long_press_ms {
                    self.cancel_all();
                    self.press = PressState::Down { since, long_press_fired: true };
                }
                self.sync_caps_led();
            },
        }
    }

    fn check_pending_tap(&mut self, o: &Observed)
        ensures
            final(self)@ == pending_tap_checked(old(self)@, *o),
    {
        if matches!(self.press, PressState::Down { .. }) {
            return;
        }
        if self.pending_tap_at.is_some() && !within_double_tap(self.pending_tap_at, o.now) {
            self.pending_tap_at = None;
            self.toggle_dictation(o);
        }
    }

    fn check_pending_enter(&mut self, now: u64)
        ensures
            final(self)@ == pending_enter_checked(old(self)@, now),
    {
        match self.pending_enter_at {
            Some(deadline) => {
                if now >= deadline {
                    self.pending_enter_at = None;
                    self.press_deferred_enter();
                }
            },
            None => {},
        }
    }

    fn deferred_submit_held(&self, now: u64) -> (r: bool)
        ensures
            r == submit_held(self@, now),
    {
        if matches!(self.press, PressState::Down { .. }) {
            return true;
        }
        match self.gesture {
            GestureState::ConfirmArmed { stop_tap_at, double_pending, .. } => double_pending
                || within_double_tap(stop_tap_at, now),
            _ => false,
        }
    }

    fn check_submit(&mut self, now: u64)
        ensures
            final(self)@ == submit_checked(old(self)@, now),
    {
        if matches!(self.gesture, GestureState::ConfirmArmed { .. }) && !self.deferred_submit_held(
            now,
        ) {
            let has_ready = matches!(self.shared.paste.final_state, FinalState::Ready(_));
            let is_empty = matches!(self.shared.paste.final_state, FinalState::Empty);
            if has_ready {
                self.confirm_paste(now);
            } else if is_empty {
                self.disarm_confirm();
                self.emit(Effect::Record(CapsKind::Confirm));
            }
        }
    }

    /// The counter moves where what is shown has changed.
    pub fn publish_status_change(&mut self, now: u64)
        ensures
            final(self)@ == status_published(old(self)@, now),
    {
        let (text, awaiting) = dictation_preview(
            &self.shared.paste.final_state,
            self.shared.paste.partial.as_str(),
            self.shared.paste.caps_held,
        );
        let has_target = self.shared.paste.has_paste_target;
        let refused = refusal_live(self.shared.paste.refused_until, now);
        let same = match &self.published {
            Some(p) => same_text(p.text.as_str(), text.as_str()) && p.awaiting == awaiting
                && p.has_target == has_target && p.refused == refused,
            None => false,
        };
        if !same {
            self.published = Some(Published { text, awaiting, has_target, refused });
            self.shared.gate.bump();
        }
    }

    fn begin_tick(&mut self, o: &Observed)
        ensures
            final(self)@ == tick_begun(old(self)@, *o),
    {
        self.check_pending_enter(o.now);
        let pause_in_background = self.cfg.pause_in_background;
        let front = !pause_in_background || o.terminal_front;
        self.emit(Effect::TerminalFront { front, pause_in_background });
        if self.shared.stt_active || !matches!(self.shared.paste.final_state, FinalState::Idle) {
            self.shared.paste.has_paste_target = o.paste_target || o.terminal_front;
        }
        self.publish_status_change(o.now);
    }

    fn discard_stale_caps_backlog(&mut self, o: &Observed)
        ensures
            final(self)@ == backlog_dropped(old(self)@, *o),
    {
        if o.event_driven {
            self.emit(Effect::DrainKey);
        }
    }

    fn apply_edges(&mut self, edges: &Vec<CapsEdge>, o: &Observed)
        ensures
            final(self)@ == edges_applied(old(self)@, edges@, *o),
    {
        let ghost start = self@;
        let mut i: usize = 0;
        assert(edges@.take(0) =~= Seq::empty());
        while i < edges.len()
            invariant
                i <= edges.len(),
                self@ == edges_applied(start, edges@.take(i as int), *o),
            decreases edges.len() - i,
        {
            let ghost before = self@;
            self.apply_caps_edge(edges[i], o);
            proof {
                lemma_edges_step(start, edges@, i as int, *o);
                assert(self@ == edge_applied(before, edges@[i as int], *o));
            }
            i += 1;
        }
        assert(edges@.take(i as int) =~= edges@);
    }

    fn follow_key(&mut self, edges: &Vec<CapsEdge>, o: &Observed)
        ensures
            final(self)@ == key_followed(old(self)@, edges@, *o),
    {
        if o.event_driven {
            self.apply_edges(edges, o);
            self.caps_phys_prev = o.caps_down;
        } else {
            let prev = self.caps_phys_prev;
            self.caps_phys_prev = o.caps_down;
            if o.caps_down != prev {
                self.apply_caps_edge(CapsEdge { down: o.caps_down, at: o.now }, o);
            }
        }
    }

    /// A tick. Where the movements of the key are queued, `edges` holds those since the
    /// last tick.
    pub fn tick(&mut self, edges: &Vec<CapsEdge>, o: &Observed)
        ensures
            final(self)@ == ticked(old(self)@, edges@, *o),
    {
        self.begin_tick(o);
        if self.cfg.listen_mode == ListenMode::Always {
            if self.listener {
                let cancel_current = self.cfg.clears_current;
                let cancel_other = self.cfg.clears_other;
                self.emit(Effect::ListenerTick { busy: o.busy, cancel_current, cancel_other });
            }
            self.discard_stale_caps_backlog(o);
            return;
        }
        if !self.caps_enabled {
            self.discard_stale_caps_backlog(o);
            return;
        }
        self.follow_key(edges, o);
        self.check_long_press(o.now);
        self.check_pending_tap(o);
        self.check_submit(o.now);
    }

    /// The key drives dictation from now on, or no longer.
    pub fn set_caps_gate(&mut self, now_on: bool)
        ensures
            final(self)@ == gated(old(self)@, now_on),
    {
        if !now_on && !matches!(self.gesture, GestureState::Idle) {
            self.teardown_hold();
        }
        if now_on != self.caps_enabled {
            if now_on {
                self.emit(Effect::AcquireKey);
            } else {
                self.press = PressState::Up;
                self.sync_caps_led();
                self.emit(Effect::ReleaseKey);
            }
            self.caps_enabled = now_on;
            self.shared.gate.bump();
        }
    }

    /// The leave of the operating system was looked at again.
    pub fn refresh_caps_gate(&mut self, preflight: bool)
        ensures
            final(self)@ == (if (old(self)@.cfg.caps && preflight) == old(self)@.caps_enabled {
                old(self)@
            } else {
                gated(old(self)@, old(self)@.cfg.caps && preflight)
            }),
    {
        let now_on = caps_loop_enabled(&self.cfg) && preflight;
        if now_on != self.caps_enabled {
            self.set_caps_gate(now_on);
        }
    }

    fn follow_stt(&mut self, cfg: &VoiceConfig, probe: ReloadProbe)
        ensures
            final(self)@ == stt_followed(old(self)@, *cfg, probe),
    {
        proof {
            reveal(stt_followed);
        }
        let change = cfg.changes_since(&self.cfg);
        if change.stt_changed || probe.local_stt != self.stt_is_local {
            self.teardown_hold();
            self.emit(Effect::BuildStt { local: probe.local_stt });
            self.stt_is_local = probe.local_stt;
        }
    }

    fn follow_helper(&mut self, cfg: &VoiceConfig)
        ensures
            final(self)@ == helper_followed(old(self)@, *cfg),
    {
        proof {
            reveal(helper_followed);
        }
        let change = cfg.changes_since(&self.cfg);
        self.emit(
            Effect::SetHelperPrefs(
                HelperPrefs {
                    full_duplex: full_duplex_wanted(cfg),
                    stt: helper_stt_provider(cfg),
                    uses_stt: helper_uses_stt(cfg),
                    uses_tts: helper_uses_tts(cfg),
                    tts_provider: cfg.tts_provider,
                },
            ),
        );
        if change.tts_toggled || change.stt_changed {
            self.emit(Effect::EnableHelper(helper_needed(cfg)));
            self.emit(Effect::ReconcileModels);
        }
        self.emit(Effect::RestartIfStale);
    }

    fn follow_listener(&mut self, always: bool, outdated: bool)
        ensures
            final(self)@ == listener_followed(old(self)@, always, outdated),
    {
        proof {
            reveal(listener_followed);
        }
        if always {
            if !self.listener || outdated {
                if !matches!(self.gesture, GestureState::Idle) {
                    self.teardown_hold();
                }
                self.listener = true;
                self.emit(Effect::BuildListener);
            }
        } else if self.listener {
            self.teardown_hold();
            self.listener = false;
            self.emit(Effect::DropListener);
        }
    }

    fn take_settings(&mut self, cfg: &VoiceConfig, hands_free: &HandsFree)
        ensures
            final(self)@ == settings_taken(old(self)@, *cfg, hands_free@),
    {
        proof {
            reveal(settings_taken);
        }
        if self.listener {
            self.emit(Effect::ListenerDelay(cfg.paste_submit_delay_ms));
        }
        self.emit(Effect::QueueConfig);
        self.cfg = *cfg;
        self.hands_free = hands_free.copy();
    }

    /// The settings have changed.
    pub fn reload(&mut self, cfg: &VoiceConfig, hands_free: &HandsFree, probe: ReloadProbe)
        ensures
            final(self)@ == reloaded(old(self)@, *cfg, hands_free@, probe),
    {
        let change = cfg.changes_since(&self.cfg);
        let outdated = cfg.listen_mode != self.cfg.listen_mode || !hands_free.same(&self.hands_free)
            || cfg.submit_confirm_ms != self.cfg.submit_confirm_ms || cfg.endpoint_silence_ms
            != self.cfg.endpoint_silence_ms || probe.local_stt != self.stt_is_local
            || change.stt_changed;
        self.long_press_ms = normalize_long_press(cfg.long_press_ms);
        self.emit(Effect::ExtraTargets);
        self.follow_stt(cfg, probe);
        self.set_caps_gate(caps_loop_enabled(cfg) && probe.preflight);
        self.follow_helper(cfg);
        self.follow_listener(cfg.listen_mode == ListenMode::Always, outdated);
        self.take_settings(cfg, hands_free);
    }

    /// The engine stops.
    pub fn shutdown(&mut self)
        ensures
            final(self)@ == shut_down(old(self)@),
    {
        self.teardown_hold();
        if self.listener {
            self.listener = false;
            self.emit(Effect::DropListener);
        }
        self.pending_tap_at = None;
        self.pending_enter_at = None;
        self.press = PressState::Up;
        self.set_caps_gate(false);
        self.emit(Effect::Led(false));
        self.emit(Effect::ReleaseKey);
    }
}

} // verus!
