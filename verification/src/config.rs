//! The settings that the engine's decisions read, with the choices already resolved for
//! this machine.

use crate::text::same_text;
use vstd::prelude::*;

verus! {

/// What transcribes a dictation.
#[derive(Debug, Clone, Copy, PartialEq, Eq, Structural)]
pub enum SttEngine {
    /// The helper's own model.
    BuiltIn,
    /// The recognizer of the operating system.
    System,
    /// The dictation of the agent's own terminal program.
    ClaudeCode,
}

/// What speaks.
#[derive(Debug, Clone, Copy, PartialEq, Eq, Structural)]
pub enum TtsEngine {
    /// The helper's own model.
    BuiltIn,
    /// The voice of the operating system.
    System,
}

/// What a model of the helper runs on.
#[derive(Debug, Clone, Copy, PartialEq, Eq, Structural)]
pub enum Provider {
    Mlx,
    Fluid,
    OrtCpu,
    OrtCuda,
}

/// The models that speak.
#[derive(Debug, Clone, Copy, PartialEq, Eq, Structural)]
pub enum TtsModel {
    Kokoro,
    Chatterbox,
    Qwen,
    OmniVoice,
}

/// What tells speakers apart.
#[derive(Debug, Clone, Copy, PartialEq, Eq, Structural)]
pub enum DiarizerProvider {
    Mlx,
    Fluid,
}

/// When the engine listens.
#[derive(Debug, Clone, Copy, PartialEq, Eq, Structural)]
pub enum ListenMode {
    /// While the Caps Lock key asks for it.
    PushToTalk,
    /// All the time.
    Always,
}

/// The settings.
#[derive(Debug, Clone, Copy, PartialEq, Eq, Structural)]
pub struct VoiceConfig {
    /// The Caps Lock key drives dictation.
    pub caps: bool,
    /// What transcribes, where dictation is on.
    pub stt: Option<SttEngine>,
    /// What the transcribing model runs on.
    pub stt_provider: Provider,
    /// What speaks, where speech is on.
    pub tts: Option<TtsEngine>,
    /// What the speaking model runs on.
    pub tts_provider: Provider,
    /// The model that speaks.
    pub tts_model: TtsModel,
    /// The model that speaks can do so while the engine listens.
    pub tts_model_full_duplex: bool,
    /// Speech and dictation may overlap.
    pub full_duplex: bool,
    /// How long a press of the key must be held to cancel, in milliseconds.
    pub long_press_ms: u64,
    /// When the engine listens.
    pub listen_mode: ListenMode,
    /// The silence after the submit word before the text is submitted.
    pub submit_confirm_ms: u64,
    /// The silence that ends an utterance.
    pub endpoint_silence_ms: u64,
    /// The pause between a paste and the Enter key.
    pub paste_submit_delay_ms: u64,
    /// Two taps submit and one inserts, rather than the other way round.
    pub double_tap_submits: bool,
    /// A submit silences the speech of its own session.
    pub clears_current: bool,
    /// A submit silences the speech of the other sessions.
    pub clears_other: bool,
    /// Speech pauses while no terminal is in front.
    pub pause_in_background: bool,
    /// Speakers are told apart.
    pub diarization: bool,
    /// What tells them apart.
    pub diarizer: DiarizerProvider,
    /// Only the user's voice is transcribed.
    pub speaker_lock: bool,
}

/// The words that drive hands-free dictation.
#[derive(Debug, PartialEq, Eq)]
pub struct HandsFree {
    pub start: String,
    pub submit: String,
    pub cancel: String,
}

/// [`HandsFree`] by its characters.
pub struct HandsFreeView {
    pub start: Seq<char>,
    pub submit: Seq<char>,
    pub cancel: Seq<char>,
}

impl View for HandsFree {
    type V = HandsFreeView;

    open spec fn view(&self) -> HandsFreeView {
        HandsFreeView { start: self.start@, submit: self.submit@, cancel: self.cancel@ }
    }
}

impl HandsFree {
    /// Whether two sets of words are the same.
    pub fn same(&self, other: &HandsFree) -> (r: bool)
        ensures
            r == (self@ == other@),
    {
        same_text(self.start.as_str(), other.start.as_str()) && same_text(
            self.submit.as_str(),
            other.submit.as_str(),
        ) && same_text(self.cancel.as_str(), other.cancel.as_str())
    }

    /// Another set of the same words.
    pub fn copy(&self) -> (r: HandsFree)
        ensures
            r@ == self@,
    {
        HandsFree {
            start: self.start.as_str().to_owned(),
            submit: self.submit.as_str().to_owned(),
            cancel: self.cancel.as_str().to_owned(),
        }
    }
}

/// What a change of settings touches.
#[derive(Debug, Clone, Copy, PartialEq, Eq, Structural)]
pub struct ConfigChange {
    /// Another engine transcribes, or on another provider.
    pub stt_changed: bool,
    /// Another engine speaks.
    pub tts_toggled: bool,
}

impl VoiceConfig {
    /// What changed since the settings were `before`.
    pub fn changes_since(&self, before: &VoiceConfig) -> (r: ConfigChange)
        ensures
            r.stt_changed == (self.stt != before.stt || self.stt_provider != before.stt_provider),
            r.tts_toggled == (self.tts != before.tts),
    {
        ConfigChange {
            stt_changed: !same_stt(self.stt, before.stt) || self.stt_provider
                != before.stt_provider,
            tts_toggled: !same_tts(self.tts, before.tts),
        }
    }
}

/// Whether two choices of what transcribes are the same.
pub fn same_stt(a: Option<SttEngine>, b: Option<SttEngine>) -> (r: bool)
    ensures
        r == (a == b),
{
    match (a, b) {
        (Some(x), Some(y)) => x == y,
        (None, None) => true,
        _ => false,
    }
}

/// Whether two choices of what speaks are the same.
pub fn same_tts(a: Option<TtsEngine>, b: Option<TtsEngine>) -> (r: bool)
    ensures
        r == (a == b),
{
    match (a, b) {
        (Some(x), Some(y)) => x == y,
        (None, None) => true,
        _ => false,
    }
}

} // verus!
