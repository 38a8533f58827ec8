//! The gestures of the Caps Lock key, and what they mean.
//!
//! A tap begins a dictation and the next tap ends it; a second tap right after the one
//! that ended it turns "submit" into "insert" or the other way round; a press that is
//! held cancels everything. The light of the key shows whether a dictation is being
//! recorded, and is never read back.

use vstd::prelude::*;

verus! {

/// How soon a second tap must come to count with the first, in milliseconds.
pub const DOUBLE_TAP_MS: u64 = 280;

/// What dictation is doing.
#[derive(Debug, Clone, Copy, PartialEq, Eq, Structural)]
pub enum GestureState {
    /// Nothing.
    Idle,
    /// The microphone is open.
    Recording,
    /// The dictation was ended; its final text is pasted when it comes.
    ConfirmArmed {
        /// When it was ended; none once a second tap has counted with that one.
        stop_tap_at: Option<u64>,
        /// A press has begun that counts with the tap that ended it.
        double_pending: bool,
        /// Enter is pressed after the paste.
        enter_after_paste: bool,
    },
}

/// Whether the key is down.
#[derive(Debug, Clone, Copy, PartialEq, Eq, Structural)]
pub enum PressState {
    Up,
    /// It is down since a time; the press has cancelled everything or not.
    Down { since: u64, long_press_fired: bool },
}

/// A movement of the key.
#[derive(Debug, Clone, Copy, PartialEq, Eq, Structural)]
pub struct CapsEdge {
    pub down: bool,
    pub at: u64,
}

/// What a tap means.
#[derive(Debug, Clone, Copy, PartialEq, Eq, Structural)]
pub enum CapsTap {
    /// Begin a dictation.
    StartRecord,
    /// End the dictation and submit it.
    StopRecord,
    /// No dictation can begin yet. The voice is left alone: nothing would resume it.
    Refused,
    /// Dictation is off: pause the voice.
    PauseVoice,
    /// Dictation is off: resume the voice.
    ResumeVoice,
}

/// What a tap means: with dictation on it begins or ends one, and with dictation off it
/// pauses or resumes the voice.
pub open spec fn tap_meaning(
    dictation_on: bool,
    ready: bool,
    recording: bool,
    voice_paused: bool,
) -> CapsTap {
    if dictation_on {
        if recording {
            CapsTap::StopRecord
        } else if ready {
            CapsTap::StartRecord
        } else {
            CapsTap::Refused
        }
    } else if voice_paused {
        CapsTap::ResumeVoice
    } else {
        CapsTap::PauseVoice
    }
}

/// What a tap means; see [`tap_meaning`].
pub fn caps_tap_action(dictation_on: bool, ready: bool, recording: bool, voice_paused: bool) -> (r:
    CapsTap)
    ensures
        r == tap_meaning(dictation_on, ready, recording, voice_paused),
{
    match (dictation_on, ready, recording, voice_paused) {
        (true, _, true, _) => CapsTap::StopRecord,
        (true, true, false, _) => CapsTap::StartRecord,
        (true, false, false, _) => CapsTap::Refused,
        (false, _, _, false) => CapsTap::PauseVoice,
        (false, _, _, true) => CapsTap::ResumeVoice,
    }
}

/// When a tap takes effect.
#[derive(Debug, Clone, Copy, PartialEq, Eq, Structural)]
pub enum TapAction {
    /// At once.
    Immediate,
    /// When no second tap has come.
    Defer,
    /// It is a second tap: skip the message that is being spoken.
    Skip,
}

/// Whether a tap at `now` counts with one at `t0`.
pub open spec fn pairs_with(t0: Option<u64>, now: u64, window: u64) -> bool {
    t0 is Some && now.saturating_sub(t0->0) <= window
}

/// Whether `now` is within [`DOUBLE_TAP_MS`] of the tap at `t0`.
pub fn within_double_tap(t0: Option<u64>, now: u64) -> (r: bool)
    ensures
        r == pairs_with(t0, now, DOUBLE_TAP_MS),
{
    match t0 {
        Some(t) => now.saturating_sub(t) <= DOUBLE_TAP_MS,
        None => false,
    }
}

/// When a tap takes effect: at once while the voice is silent; else a lone tap waits for
/// a second one, and two taps skip the message.
pub open spec fn tap_timing(speaking: bool, pending: Option<u64>, now: u64, window: u64)
    -> TapAction {
    if !speaking {
        TapAction::Immediate
    } else if pairs_with(pending, now, window) {
        TapAction::Skip
    } else {
        TapAction::Defer
    }
}

/// When a tap takes effect; see [`tap_timing`].
pub fn tap_decision(speaking: bool, pending: Option<u64>, now: u64, window: u64) -> (r: TapAction)
    ensures
        r == tap_timing(speaking, pending, now, window),
{
    if !speaking {
        return TapAction::Immediate;
    }
    match pending {
        Some(t) => if now.saturating_sub(t) <= window {
            TapAction::Skip
        } else {
            TapAction::Defer
        },
        None => TapAction::Defer,
    }
}

} // verus!
