//! Hands-free dictation at work: the microphone is open while the voice is silent, what
//! is heard drives the turn, and the turn drives what is shown and typed.
//!
//! The caller owns the microphone, the transcription and the keyboard. What they hear
//! carries the number of the opening of the microphone that it belongs to.

use crate::engine::paste::{FinalState, FinalView, PasteBuf, PasteView};
use crate::listen::{
    heard_in, silence_actions, turn_after, turn_resumed, turn_silent, action_views, ActionView,
    EndpointEvent, Endpointer, TurnAction, TurnLogic, TurnView, endpoint_event, endpoint_next,
};
use crate::status::{bumped, StatusGate};
use crate::text::str_opt;
use vstd::prelude::*;

verus! {

/// How long a look at the microphone takes that brings no sound, in milliseconds.
pub const FALLBACK_DT_MS: u64 = 30;

// ── What is shared ───────────────────────────────────────────────────────────

/// What dictation by the key and hands-free dictation share.
pub struct ListenerShared {
    /// The dictation that is under way.
    pub paste: PasteBuf,
    /// A dictation is being recorded.
    pub stt_active: bool,
    /// Moves when what is shown has changed.
    pub gate: StatusGate,
}

/// [`ListenerShared`] as a mathematical value.
#[verifier::ext_equal]
pub struct SharedView {
    pub paste: PasteView,
    pub stt_active: bool,
    pub gate: StatusGate,
}

impl View for ListenerShared {
    type V = SharedView;

    open spec fn view(&self) -> SharedView {
        SharedView { paste: self.paste@, stt_active: self.stt_active, gate: self.gate }
    }
}

/// The state with a dictation being recorded or not; a change moves the counter.
pub open spec fn with_active(s: SharedView, on: bool) -> SharedView {
    if s.stt_active != on {
        SharedView { stt_active: on, gate: bumped(s.gate), ..s }
    } else {
        s
    }
}

impl ListenerShared {
    /// No dictation has been made.
    pub fn new() -> (r: Self)
        ensures
            r@ == (SharedView {
                paste: crate::engine::paste::fresh_paste(),
                stt_active: false,
                gate: StatusGate { seq: 0 },
            }),
    {
        ListenerShared { paste: PasteBuf::new(), stt_active: false, gate: StatusGate::new() }
    }

    /// A dictation is being recorded or not; a change moves the counter.
    pub fn set_stt_active(&mut self, on: bool)
        ensures
            final(self)@ == with_active(old(self)@, on),
    {
        if self.stt_active != on {
            self.stt_active = on;
            self.gate.bump();
        }
    }
}

// ── The microphone ───────────────────────────────────────────────────────────

/// Whether the microphone is to be open, and which opening it is.
#[derive(Debug, Clone, Copy, PartialEq, Eq, Structural)]
pub struct MicGate {
    pub enabled: bool,
    pub epoch: u64,
}

/// The microphone opened or closed; a change makes it another opening.
pub open spec fn switched(g: MicGate, on: bool) -> MicGate {
    if g.enabled != on {
        MicGate { enabled: on, epoch: g.epoch.wrapping_add(1) }
    } else {
        g
    }
}

impl MicGate {
    /// The microphone is closed.
    pub fn new() -> (r: Self)
        ensures
            r == (MicGate { enabled: false, epoch: 1 }),
    {
        MicGate { enabled: false, epoch: 1 }
    }

    /// Opens or closes the microphone.
    pub fn set_enabled(&mut self, on: bool)
        ensures
            *final(self) == switched(*old(self), on),
    {
        if self.enabled != on {
            self.enabled = on;
            self.epoch = self.epoch.wrapping_add(1);
        }
    }
}

/// What is heard while the microphone is closed, or was heard before it was closed, does
/// not belong to its next opening.
pub proof fn law_reopened_microphone_starts_afresh(g: MicGate)
    requires
        g.enabled,
    ensures
        switched(g, false).epoch != g.epoch,
        switched(switched(g, false), true).epoch != g.epoch,
        switched(switched(g, false), true).epoch != switched(g, false).epoch,
{
}

/// What the recorder found.
#[derive(Debug, Clone, Copy, PartialEq, Eq, Structural)]
pub enum CaptureEvent {
    /// Time has passed.
    Tick { epoch: u64, dt_ms: u64 },
    /// The user has begun to talk.
    SpeechOnset { epoch: u64 },
    /// An utterance is over, and is to be transcribed.
    Segment { epoch: u64 },
}

/// The recorder: which opening of the microphone it records, and the utterance that is
/// under way.
#[derive(Debug, Clone, Copy, PartialEq, Eq, Structural)]
pub struct Recorder {
    pub epoch: u64,
    pub endpointer: Endpointer,
}

impl Recorder {
    /// A recorder of an opening.
    pub fn new(epoch: u64, endpoint_silence_ms: u64) -> (r: Self)
        ensures
            r == (Recorder {
                epoch,
                endpointer: Endpointer { endpoint_silence_ms, speaking: false, silence_ms: 0 },
            }),
    {
        Recorder { epoch, endpointer: Endpointer::new(endpoint_silence_ms) }
    }

    /// Follows the microphone; whether the recorder may go on. Where it may not, what it
    /// has gathered is dropped.
    pub fn follow(&mut self, gate: MicGate) -> (r: bool)
        ensures
            r == (gate.epoch == old(self).epoch && gate.enabled),
            r ==> *final(self) == *old(self),
            !r ==> *final(self) == (Recorder {
                epoch: gate.epoch,
                endpointer: Endpointer {
                    speaking: false,
                    silence_ms: 0,
                    ..old(self).endpointer
                },
            }),
    {
        if gate.epoch != self.epoch || !gate.enabled {
            self.endpointer.reset();
            self.epoch = gate.epoch;
            false
        } else {
            true
        }
    }

    /// A look at the microphone brought no sound.
    pub fn nothing(&self) -> (r: CaptureEvent)
        ensures
            r == (CaptureEvent::Tick { epoch: self.epoch, dt_ms: FALLBACK_DT_MS }),
    {
        CaptureEvent::Tick { epoch: self.epoch, dt_ms: FALLBACK_DT_MS }
    }

    /// A look at the microphone brought `dt_ms` of sound, with speech in it or not.
    pub fn sound(&mut self, voiced: bool, dt_ms: u64) -> (r: CaptureEvent)
        ensures
            r == (match endpoint_event(old(self).endpointer, voiced, dt_ms) {
                Some(EndpointEvent::SpeechOnset) => CaptureEvent::SpeechOnset {
                    epoch: old(self).epoch,
                },
                Some(EndpointEvent::SegmentClosed) => CaptureEvent::Segment {
                    epoch: old(self).epoch,
                },
                None => CaptureEvent::Tick { epoch: old(self).epoch, dt_ms },
            }),
            *final(self) == (Recorder {
                endpointer: endpoint_next(old(self).endpointer, voiced, dt_ms),
                ..*old(self)
            }),
    {
        match self.endpointer.step(voiced, dt_ms) {
            Some(EndpointEvent::SpeechOnset) => CaptureEvent::SpeechOnset { epoch: self.epoch },
            Some(EndpointEvent::SegmentClosed) => CaptureEvent::Segment { epoch: self.epoch },
            None => CaptureEvent::Tick { epoch: self.epoch, dt_ms },
        }
    }
}

/// How long so many samples last, in milliseconds; at least one. A rate of zero counts
/// as one.
pub fn frame_ms(samples: u64, rate: u32) -> (r: u64)
    requires
        samples <= u64::MAX / 1000,
    ensures
        r == ({
            let per_second = if rate == 0 {
                1
            } else {
                rate as int
            };
            let ms = (samples * 1000) as int / per_second;
            if ms < 1 {
                1
            } else {
                ms
            }
        }),
{
    let per_second: u64 = if rate == 0 {
        1
    } else {
        rate as u64
    };
    let ms: u64 = samples * 1000 / per_second;
    if ms < 1 {
        1
    } else {
        ms
    }
}

// ── The listener ─────────────────────────────────────────────────────────────

/// What was heard.
#[derive(Debug, PartialEq, Eq)]
pub enum ListenerEvent {
    /// Time has passed.
    Tick { epoch: u64, dt_ms: u64 },
    /// The user has begun to talk.
    SpeechOnset { epoch: u64 },
    /// An utterance, transcribed.
    Segment { epoch: u64, text: String },
}

/// A [`ListenerEvent`] by its characters.
pub enum EventView {
    Tick { epoch: u64, dt_ms: u64 },
    SpeechOnset { epoch: u64 },
    Segment { epoch: u64, text: Seq<char> },
}

impl View for ListenerEvent {
    type V = EventView;

    open spec fn view(&self) -> EventView {
        match *self {
            ListenerEvent::Tick { epoch, dt_ms } => EventView::Tick { epoch, dt_ms },
            ListenerEvent::SpeechOnset { epoch } => EventView::SpeechOnset { epoch },
            ListenerEvent::Segment { epoch, text } => EventView::Segment { epoch, text: text@ },
        }
    }
}

/// Events by their characters.
pub open spec fn event_views(v: Seq<ListenerEvent>) -> Seq<EventView> {
    Seq::new(v.len(), |i: int| v[i]@)
}

/// Which opening of the microphone an event belongs to.
pub open spec fn event_epoch(e: EventView) -> u64 {
    match e {
        EventView::Tick { epoch, .. } => epoch,
        EventView::SpeechOnset { epoch } => epoch,
        EventView::Segment { epoch, .. } => epoch,
    }
}

/// Which opening of the microphone a finding belongs to.
pub open spec fn capture_epoch(e: CaptureEvent) -> u64 {
    match e {
        CaptureEvent::Tick { epoch, .. } => epoch,
        CaptureEvent::SpeechOnset { epoch } => epoch,
        CaptureEvent::Segment { epoch } => epoch,
    }
}

/// Whether a finding is worth transcribing: it belongs to the opening `epoch`, which is
/// the current one.
pub fn is_current(e: CaptureEvent, epoch: u64) -> (r: bool)
    ensures
        r == (capture_epoch(e) == epoch),
{
    match e {
        CaptureEvent::Tick { epoch: own, .. } => own == epoch,
        CaptureEvent::SpeechOnset { epoch: own } => own == epoch,
        CaptureEvent::Segment { epoch: own } => own == epoch,
    }
}

/// A finding as it is passed on, with the text of an utterance.
pub fn passed_on(e: CaptureEvent, text: String) -> (r: ListenerEvent)
    ensures
        r@ == (match e {
            CaptureEvent::Tick { epoch, dt_ms } => EventView::Tick { epoch, dt_ms },
            CaptureEvent::SpeechOnset { epoch } => EventView::SpeechOnset { epoch },
            CaptureEvent::Segment { epoch } => EventView::Segment { epoch, text: text@ },
        }),
        event_epoch(r@) == capture_epoch(e),
{
    match e {
        CaptureEvent::Tick { epoch, dt_ms } => ListenerEvent::Tick { epoch, dt_ms },
        CaptureEvent::SpeechOnset { epoch } => ListenerEvent::SpeechOnset { epoch },
        CaptureEvent::Segment { epoch } => ListenerEvent::Segment { epoch, text },
    }
}

/// What is to be done, in order.
#[derive(Debug, PartialEq, Eq)]
pub enum ListenEffect {
    /// Type this text.
    Type(String),
    /// Silence the speech of the session that is submitted to, and of the others.
    CancelSpeech { current: bool, other: bool },
    /// Press Enter.
    PressEnter,
    /// Note that Enter was pressed for the user.
    NoteVoiceSubmit,
}

/// A [`ListenEffect`] by its characters.
pub enum ListenEffectView {
    Type(Seq<char>),
    CancelSpeech { current: bool, other: bool },
    PressEnter,
    NoteVoiceSubmit,
}

impl View for ListenEffect {
    type V = ListenEffectView;

    open spec fn view(&self) -> ListenEffectView {
        match *self {
            ListenEffect::Type(t) => ListenEffectView::Type(t@),
            ListenEffect::CancelSpeech { current, other } => ListenEffectView::CancelSpeech {
                current,
                other,
            },
            ListenEffect::PressEnter => ListenEffectView::PressEnter,
            ListenEffect::NoteVoiceSubmit => ListenEffectView::NoteVoiceSubmit,
        }
    }
}

/// Effects by their characters.
pub open spec fn effect_views(v: Seq<ListenEffect>) -> Seq<ListenEffectView> {
    Seq::new(v.len(), |i: int| v[i]@)
}

/// Hands-free dictation.
pub struct Listener {
    mic: Option<MicGate>,
    turn: TurnLogic,
    paste_submit_delay_ms: u64,
    pending_enter_at: Option<u64>,
}

/// A [`Listener`] as a mathematical value.
#[verifier::ext_equal]
pub struct ListenerView {
    /// The microphone; none where nothing can be transcribed.
    pub mic: Option<MicGate>,
    /// The turn.
    pub turn: TurnView,
    /// The pause between a paste and the Enter key.
    pub paste_submit_delay_ms: u64,
    /// When a text was pasted whose Enter key is still to be pressed.
    pub pending_enter_at: Option<u64>,
}

impl View for Listener {
    type V = ListenerView;

    closed spec fn view(&self) -> ListenerView {
        ListenerView {
            mic: self.mic,
            turn: self.turn@,
            paste_submit_delay_ms: self.paste_submit_delay_ms,
            pending_enter_at: self.pending_enter_at,
        }
    }
}

/// What a step works on: the listener, what it shares, and what is to be done.
#[verifier::ext_equal]
pub struct Work {
    pub l: ListenerView,
    pub s: SharedView,
    pub fx: Seq<ListenEffectView>,
}

/// What a step knows.
#[verifier::ext_equal]
pub struct Surroundings {
    /// The time.
    pub now: u64,
    /// The application in front.
    pub frontmost: Option<Seq<char>>,
    /// A submit silences the speech of its own session.
    pub cancel_current: bool,
    /// A submit silences the speech of the other sessions.
    pub cancel_other: bool,
}

/// What is shown follows the turn: its text while it is open, nothing while it is
/// closed.
pub open spec fn pill(s: SharedView, turn: TurnView, frontmost: Option<Seq<char>>) -> SharedView {
    let a = with_active(s, turn.capturing);
    SharedView {
        paste: if turn.capturing {
            PasteView {
                partial: turn.buffer,
                target: if a.paste.target is None {
                    frontmost
                } else {
                    a.paste.target
                },
                ..a.paste
            }
        } else {
            PasteView {
                partial: Seq::empty(),
                final_state: FinalView::Idle,
                target: None,
                ..a.paste
            }
        },
        ..a
    }
}

/// Enter is pressed for the user.
pub open spec fn entered(fx: Seq<ListenEffectView>) -> Seq<ListenEffectView> {
    fx.push(ListenEffectView::PressEnter).push(ListenEffectView::NoteVoiceSubmit)
}

/// Whether an Enter key has waited long enough.
pub open spec fn enter_due(l: ListenerView, now: u64) -> bool {
    l.pending_enter_at is Some && now.saturating_sub(l.pending_enter_at->0)
        >= l.paste_submit_delay_ms
}

/// An Enter key that waited long enough is pressed.
pub open spec fn enter_checked(w: Work, now: u64) -> Work {
    if enter_due(w.l, now) {
        Work { l: ListenerView { pending_enter_at: None, ..w.l }, fx: entered(w.fx), ..w }
    } else {
        w
    }
}

/// The listener once the end of a turn was carried out: the Enter key of a submit waits
/// where there is a pause.
pub open spec fn executed_listener(l: ListenerView, action: ActionView, now: u64) -> ListenerView {
    if action is SubmitText && l.paste_submit_delay_ms > 0 {
        ListenerView { pending_enter_at: Some(now), ..l }
    } else {
        l
    }
}

/// What the end of a turn calls for: a submit types the text whatever is in front,
/// silences what it is to silence at once, and presses Enter where there is no pause; a
/// cancel does nothing.
pub open spec fn executed_effects(
    fx: Seq<ListenEffectView>,
    action: ActionView,
    pause: u64,
    current: bool,
    other: bool,
) -> Seq<ListenEffectView> {
    match action {
        ActionView::Cancel => fx,
        ActionView::SubmitText(text) => {
            let typed = fx.push(ListenEffectView::Type(text)).push(
                ListenEffectView::CancelSpeech { current, other },
            );
            if pause > 0 {
                typed
            } else {
                entered(typed)
            }
        },
    }
}

/// The end of a turn is carried out.
pub open spec fn executed(w: Work, action: ActionView, c: Surroundings) -> Work {
    Work {
        l: executed_listener(w.l, action, c.now),
        fx: executed_effects(
            w.fx,
            action,
            w.l.paste_submit_delay_ms,
            c.cancel_current,
            c.cancel_other,
        ),
        ..w
    }
}

/// The turn after an event.
pub open spec fn turn_on(turn: TurnView, e: EventView) -> TurnView {
    match e {
        EventView::Tick { dt_ms, .. } => turn_silent(turn, dt_ms),
        EventView::SpeechOnset { .. } => turn_resumed(turn),
        EventView::Segment { text, .. } => turn_after(turn, heard_in(turn, text)),
    }
}

/// What an event calls for.
pub open spec fn actions_on(turn: TurnView, e: EventView) -> Seq<ActionView> {
    match e {
        EventView::Tick { dt_ms, .. } => silence_actions(turn, dt_ms),
        _ => Seq::empty(),
    }
}

/// An event is taken in. One of another opening of the microphone is dropped.
pub open spec fn taken_in(w: Work, e: EventView, epoch: u64, c: Surroundings) -> Work {
    if event_epoch(e) != epoch {
        w
    } else {
        let turn = turn_on(w.l.turn, e);
        let shown = Work {
            l: ListenerView { turn, ..w.l },
            s: pill(w.s, turn, c.frontmost),
            fx: w.fx,
        };
        let actions = actions_on(w.l.turn, e);
        if actions.len() == 0 {
            shown
        } else {
            executed(shown, actions[0], c)
        }
    }
}

/// Events are taken in, one after the other.
pub open spec fn all_taken_in(w: Work, events: Seq<EventView>, epoch: u64, c: Surroundings) -> Work
    decreases events.len(),
{
    if events.len() == 0 {
        w
    } else {
        taken_in(all_taken_in(w, events.drop_last(), epoch, c), events.last(), epoch, c)
    }
}

/// A tick: an Enter key that waits is looked at first; while the voice speaks the
/// microphone is closed and what was heard is dropped; else the microphone is open and
/// what was heard is taken in.
pub open spec fn ticked(w: Work, tts_busy: bool, events: Seq<EventView>, c: Surroundings) -> Work {
    let a = enter_checked(w, c.now);
    match a.l.mic {
        None => a,
        Some(mic) => {
            let m = switched(mic, !tts_busy);
            let b = Work { l: ListenerView { mic: Some(m), ..a.l }, ..a };
            if tts_busy {
                b
            } else {
                all_taken_in(b, events, m.epoch, c)
            }
        },
    }
}

impl Listener {
    /// Hands-free dictation; whether anything can be transcribed is `available`.
    pub fn new(available: bool, turn: TurnLogic, paste_submit_delay_ms: u64) -> (r: Self)
        ensures
            r@ == (ListenerView {
                mic: if available {
                    Some(MicGate { enabled: false, epoch: 1 })
                } else {
                    None
                },
                turn: turn@,
                paste_submit_delay_ms,
                pending_enter_at: None,
            }),
    {
        Listener {
            mic: if available {
                Some(MicGate::new())
            } else {
                None
            },
            turn,
            paste_submit_delay_ms,
            pending_enter_at: None,
        }
    }

    /// The microphone; none where nothing can be transcribed.
    pub fn mic(&self) -> (r: Option<MicGate>)
        ensures
            r == self@.mic,
    {
        self.mic
    }

    /// Sets the pause between a paste and the Enter key, without disturbing the turn.
    pub fn set_paste_submit_delay_ms(&mut self, ms: u64)
        ensures
            final(self)@ == (ListenerView { paste_submit_delay_ms: ms, ..old(self)@ }),
    {
        self.paste_submit_delay_ms = ms;
    }

    /// What is shown follows the turn.
    pub fn sync_pill(&self, shared: &mut ListenerShared, frontmost: Option<&str>)
        ensures
            final(shared)@ == pill(old(shared)@, self@.turn, str_opt(frontmost)),
    {
        let capturing = self.turn.capturing();
        shared.set_stt_active(capturing);
        if capturing {
            shared.paste.partial = self.turn.buffer().to_owned();
            if shared.paste.target.is_none() {
                shared.paste.target = match frontmost {
                    Some(name) => Some(name.to_owned()),
                    None => None,
                };
            }
        } else {
            shared.paste.partial = String::new();
            shared.paste.final_state = FinalState::Idle;
            shared.paste.target = None;
        }
    }

    /// Closes the microphone. The turn stays as it is.
    pub fn gate_off(&mut self)
        ensures
            final(self)@ == (ListenerView {
                mic: match old(self)@.mic {
                    Some(m) => Some(switched(m, false)),
                    None => None,
                },
                ..old(self)@
            }),
    {
        match self.mic {
            Some(m) => {
                let mut gate = m;
                gate.set_enabled(false);
                self.mic = Some(gate);
            },
            None => {},
        }
    }

    /// An Enter key that waited long enough is pressed.
    fn check_pending_enter(&mut self, now: u64, fx: &mut Vec<ListenEffect>)
        ensures
            final(self)@ == (if enter_due(old(self)@, now) {
                ListenerView { pending_enter_at: None, ..old(self)@ }
            } else {
                old(self)@
            }),
            effect_views(final(fx)@) == (if enter_due(old(self)@, now) {
                entered(effect_views(old(fx)@))
            } else {
                effect_views(old(fx)@)
            }),
    {
        match self.pending_enter_at {
            Some(at) => {
                if now.saturating_sub(at) >= self.paste_submit_delay_ms {
                    self.pending_enter_at = None;
                    push_enter(fx);
                }
            },
            None => {},
        }
    }

    /// The end of a turn is carried out.
    pub fn exec(
        &mut self,
        action: TurnAction,
        cancel_current: bool,
        cancel_other: bool,
        now: u64,
        fx: &mut Vec<ListenEffect>,
    )
        ensures
            final(self)@ == executed_listener(old(self)@, action@, now),
            effect_views(final(fx)@) == executed_effects(
                effect_views(old(fx)@),
                action@,
                old(self)@.paste_submit_delay_ms,
                cancel_current,
                cancel_other,
            ),
    {
        match action {
            TurnAction::SubmitText(text) => {
                push_effect(fx, ListenEffect::Type(text));
                push_effect(
                    fx,
                    ListenEffect::CancelSpeech { current: cancel_current, other: cancel_other },
                );
                if self.paste_submit_delay_ms > 0 {
                    self.pending_enter_at = Some(now);
                } else {
                    push_enter(fx);
                }
            },
            TurnAction::Cancel => {},
        }
    }

    /// A tick.
    pub fn tick(
        &mut self,
        shared: &mut ListenerShared,
        tts_busy: bool,
        cancel_current: bool,
        cancel_other: bool,
        now: u64,
        frontmost: Option<&str>,
        events: &Vec<ListenerEvent>,
    ) -> (r: Vec<ListenEffect>)
        ensures
            (Work { l: final(self)@, s: final(shared)@, fx: effect_views(r@) }) == ticked(
                (Work { l: old(self)@, s: old(shared)@, fx: Seq::empty() }),
                tts_busy,
                event_views(events@),
                (Surroundings {
                    now,
                    frontmost: str_opt(frontmost),
                    cancel_current,
                    cancel_other,
                }),
            ),
    {
        let mut fx: Vec<ListenEffect> = Vec::new();
        assert(effect_views(fx@) =~= Seq::empty());
        self.check_pending_enter(now, &mut fx);
        if tts_busy {
            self.gate_off();
            return fx;
        }
        let epoch: u64 = match self.mic {
            None => {
                return fx;
            },
            Some(m) => {
                let mut gate = m;
                gate.set_enabled(true);
                self.mic = Some(gate);
                gate.epoch
            },
        };
        let ghost start = Work { l: self@, s: shared@, fx: effect_views(fx@) };
        let ghost all = event_views(events@);
        let ghost c = Surroundings {
            now,
            frontmost: str_opt(frontmost),
            cancel_current,
            cancel_other,
        };
        let mut i: usize = 0;
        assert(all.take(0) =~= Seq::empty());
        while i < events.len()
            invariant
                i <= events.len(),
                all == event_views(events@),
                c == (Surroundings {
                    now,
                    frontmost: str_opt(frontmost),
                    cancel_current,
                    cancel_other,
                }),
                (Work { l: self@, s: shared@, fx: effect_views(fx@) }) == all_taken_in(
                    start,
                    all.take(i as int),
                    epoch,
                    c,
                ),
            decreases events.len() - i,
        {
            let ghost before = Work { l: self@, s: shared@, fx: effect_views(fx@) };
            proof {
                assert(all.take(i + 1).drop_last() =~= all.take(i as int));
                assert(all.take(i + 1).last() == events@[i as int]@);
            }
            let ghost e = events@[i as int]@;
            let (at, actions) = match &events[i] {
                ListenerEvent::Tick { epoch: at, dt_ms } => {
                    if *at == epoch {
                        (*at, self.turn.on_tick(*dt_ms))
                    } else {
                        (*at, Vec::new())
                    }
                },
                ListenerEvent::SpeechOnset { epoch: at } => {
                    if *at == epoch {
                        (*at, self.turn.on_speech_onset())
                    } else {
                        (*at, Vec::new())
                    }
                },
                ListenerEvent::Segment { epoch: at, text } => {
                    if *at == epoch {
                        (*at, self.turn.on_segment(text.as_str()))
                    } else {
                        (*at, Vec::new())
                    }
                },
            };
            if at == epoch {
                assert(action_views(actions@) =~= actions_on(before.l.turn, e));
                self.sync_pill(shared, frontmost);
                let ghost shown = Work { l: self@, s: shared@, fx: effect_views(fx@) };
                let mut pending = actions;
                match pending.pop() {
                    Some(action) => {
                        assert(action@ == actions_on(before.l.turn, e)[0]);
                        self.exec(action, cancel_current, cancel_other, now, &mut fx);
                        assert((Work { l: self@, s: shared@, fx: effect_views(fx@) }) == executed(
                            shown,
                            action@,
                            c,
                        ));
                    },
                    None => {},
                }
            }
            i += 1;
        }
        assert(all.take(i as int) =~= all);
        fx
    }
}

fn push_effect(fx: &mut Vec<ListenEffect>, e: ListenEffect)
    ensures
        effect_views(final(fx)@) == effect_views(old(fx)@).push(e@),
{
    let ghost before = effect_views(fx@);
    fx.push(e);
    assert(effect_views(fx@) =~= before.push(e@));
}

fn push_enter(fx: &mut Vec<ListenEffect>)
    ensures
        effect_views(final(fx)@) == entered(effect_views(old(fx)@)),
{
    push_effect(fx, ListenEffect::PressEnter);
    push_effect(fx, ListenEffect::NoteVoiceSubmit);
}

// ── Laws ─────────────────────────────────────────────────────────────────────

/// While the voice speaks nothing that is heard counts: the turn and what is shown stay
/// as they are, and nothing is typed.
pub proof fn law_voice_is_never_heard(w: Work, events: Seq<EventView>, c: Surroundings)
    ensures
        ({
            let after = ticked(w, true, events, c);
            &&& after.l.turn == w.l.turn
            &&& after.s == w.s
            &&& after.l.mic is Some ==> !after.l.mic->0.enabled
            &&& forall|i: int|
                w.fx.len() <= i < after.fx.len() ==> !(#[trigger] after.fx[i] is Type)
        }),
{
}

/// A pasted text gets its Enter key: one that waits is pressed by the first tick that
/// comes after its pause, also while the voice speaks.
pub proof fn law_waiting_enter_is_pressed(w: Work, tts_busy: bool, c: Surroundings)
    requires
        w.l.pending_enter_at is Some,
        c.now.saturating_sub(w.l.pending_enter_at->0) >= w.l.paste_submit_delay_ms,
    ensures
        ticked(w, tts_busy, Seq::empty(), c).fx == entered(w.fx),
        ticked(w, tts_busy, Seq::empty(), c).l.pending_enter_at is None,
{
}

/// What is shown agrees with the turn after an event is taken in: a dictation is shown
/// as being recorded exactly while the turn is open, with the text that was gathered.
pub proof fn law_pill_shows_the_turn(w: Work, e: EventView, epoch: u64, c: Surroundings)
    requires
        event_epoch(e) == epoch,
    ensures
        ({
            let after = taken_in(w, e, epoch, c);
            &&& after.s.stt_active == after.l.turn.capturing
            &&& after.l.turn.capturing ==> after.s.paste.partial == after.l.turn.buffer
            &&& !after.l.turn.capturing ==> after.s.paste.partial.len() == 0
                && after.s.paste.target is None
        }),
{
}

/// A submitted turn types its text, silences the speech that it is to silence, and presses
/// Enter at once where there is no pause, else when the pause is over; a cancelled turn
/// does nothing.
pub proof fn law_what_the_end_of_a_turn_does(w: Work, text: Seq<char>, c: Surroundings)
    ensures
        ({
            let a = executed(w, ActionView::SubmitText(text), c);
            let silenced = ListenEffectView::CancelSpeech {
                current: c.cancel_current,
                other: c.cancel_other,
            };
            &&& w.l.paste_submit_delay_ms == 0 ==> a.fx == w.fx + seq![
                ListenEffectView::Type(text),
                silenced,
                ListenEffectView::PressEnter,
                ListenEffectView::NoteVoiceSubmit,
            ] && a.l == w.l
            &&& w.l.paste_submit_delay_ms > 0 ==> a.fx == w.fx + seq![
                ListenEffectView::Type(text),
                silenced,
            ] && a.l == (ListenerView { pending_enter_at: Some(c.now), ..w.l })
            &&& a.s == w.s
        }),
        executed(w, ActionView::Cancel, c) == w,
{
    let a = executed(w, ActionView::SubmitText(text), c);
    let silenced = ListenEffectView::CancelSpeech {
        current: c.cancel_current,
        other: c.cancel_other,
    };
    if w.l.paste_submit_delay_ms == 0 {
        assert(a.fx =~= w.fx + seq![
            ListenEffectView::Type(text),
            silenced,
            ListenEffectView::PressEnter,
            ListenEffectView::NoteVoiceSubmit,
        ]);
    } else {
        assert(a.fx =~= w.fx + seq![ListenEffectView::Type(text), silenced]);
    }
}

/// An Enter key that waits is pressed from the moment on that its pause is over, once; not
/// before, and never where none waits.
pub proof fn law_when_enter_is_pressed(w: Work, at: u64, now: u64)
    requires
        at <= now,
    ensures
        w.l.pending_enter_at is None ==> enter_checked(w, now) == w,
        w.l.pending_enter_at == Some(at) && now - at < w.l.paste_submit_delay_ms ==> enter_checked(
            w,
            now,
        ) == w,
        w.l.pending_enter_at == Some(at) && now - at >= w.l.paste_submit_delay_ms ==> {
            let a = enter_checked(w, now);
            &&& a.fx == w.fx.push(ListenEffectView::PressEnter).push(
                ListenEffectView::NoteVoiceSubmit,
            )
            &&& a.l.pending_enter_at is None
            &&& a.s == w.s && a.l.turn == w.l.turn
            &&& enter_checked(a, now) == a
        },
{
}

/// The microphone is open while the voice is silent, and closed while it speaks. What
/// belongs to another opening of it is dropped.
pub proof fn law_microphone_follows_the_voice(
    w: Work,
    mic: MicGate,
    busy: bool,
    e: EventView,
    epoch: u64,
    c: Surroundings,
)
    requires
        w.l.mic == Some(mic),
    ensures
        ticked(w, busy, Seq::empty(), c).l.mic is Some,
        ticked(w, busy, Seq::empty(), c).l.mic->0.enabled == !busy,
        mic.enabled == !busy ==> ticked(w, busy, Seq::empty(), c).l.mic == Some(mic),
        mic.enabled == busy ==> ticked(w, busy, Seq::empty(), c).l.mic->0.epoch != mic.epoch,
        event_epoch(e) != epoch ==> taken_in(w, e, epoch, c) == w,
{
}

/// What is heard is taken in, in order, and only the passing of time ends a turn: talk
/// types nothing.
pub proof fn law_only_silence_ends_a_turn(
    w: Work,
    text: Seq<char>,
    events: Seq<EventView>,
    e: EventView,
    epoch: u64,
    c: Surroundings,
)
    ensures
        taken_in(w, EventView::SpeechOnset { epoch }, epoch, c).fx == w.fx,
        taken_in(w, EventView::Segment { epoch, text }, epoch, c).fx == w.fx,
        taken_in(w, EventView::SpeechOnset { epoch }, epoch, c).l.pending_enter_at
            == w.l.pending_enter_at,
        taken_in(w, EventView::Segment { epoch, text }, epoch, c).l.turn == turn_after(
            w.l.turn,
            heard_in(w.l.turn, text),
        ),
        taken_in(w, EventView::SpeechOnset { epoch }, epoch, c).l.turn == turn_resumed(w.l.turn),
        all_taken_in(w, Seq::empty(), epoch, c) == w,
        all_taken_in(w, events.push(e), epoch, c) == taken_in(
            all_taken_in(w, events, epoch, c),
            e,
            epoch,
            c,
        ),
{
    assert(events.push(e).drop_last() =~= events);
}

/// A turn that is submitted by silence is typed: the first silence that is long enough
/// types what was gathered, and the turn is closed.
pub proof fn law_submitted_turn_is_typed(w: Work, dt_ms: u64, epoch: u64, c: Surroundings)
    requires
        w.l.turn.pending matches Some(p) && p.kind == crate::listen::PendingKind::Submit
            && p.elapsed_ms == 0,
        dt_ms >= w.l.turn.confirm_ms,
        w.l.turn.buffer.len() > 0,
        crate::text::trim(w.l.turn.buffer) == w.l.turn.buffer,
    ensures
        ({
            let a = taken_in(w, EventView::Tick { epoch, dt_ms }, epoch, c);
            &&& a.fx.len() >= w.fx.len() + 2
            &&& a.fx[w.fx.len() as int] == ListenEffectView::Type(w.l.turn.buffer)
            &&& !a.l.turn.capturing && a.l.turn.buffer.len() == 0
            &&& !a.s.stt_active && a.s.paste.partial.len() == 0
        }),
{
}

/// What is shown keeps the application that was in front when the turn was opened, and a
/// change of what is recorded moves the counter.
pub proof fn law_pill_keeps_its_target(s: SharedView, turn: TurnView, front: Option<Seq<char>>)
    ensures
        turn.capturing && s.paste.target is Some ==> pill(s, turn, front).paste.target
            == s.paste.target,
        turn.capturing && s.paste.target is None ==> pill(s, turn, front).paste.target == front,
        turn.capturing ==> pill(s, turn, front).paste.partial == turn.buffer,
        !turn.capturing ==> pill(s, turn, front).paste.final_state is Idle,
        pill(s, turn, front).stt_active == turn.capturing,
        s.stt_active != turn.capturing ==> pill(s, turn, front).gate.seq != s.gate.seq,
        s.stt_active == turn.capturing ==> pill(s, turn, front).gate == s.gate,
        pill(s, turn, front).paste.epoch == s.paste.epoch,
{
}

/// An event belongs to the opening of the microphone that it names.
pub proof fn law_events_name_their_opening(epoch: u64, dt_ms: u64, text: Seq<char>)
    ensures
        event_epoch(EventView::Tick { epoch, dt_ms }) == epoch,
        event_epoch(EventView::SpeechOnset { epoch }) == epoch,
        event_epoch(EventView::Segment { epoch, text }) == epoch,
        capture_epoch(CaptureEvent::Tick { epoch, dt_ms }) == epoch,
        capture_epoch(CaptureEvent::SpeechOnset { epoch }) == epoch,
        capture_epoch(CaptureEvent::Segment { epoch }) == epoch,
{
}

} // verus!
