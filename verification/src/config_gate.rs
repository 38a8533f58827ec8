//! What follows from the settings: which parts run, what they need, and when a change
//! of the settings is read.
//!
//! The caller answers what only the machine knows: which libraries and model files are
//! there, and whether the recognizer of the operating system is ready.

use crate::config::{Provider, SttEngine, TtsEngine, TtsModel, VoiceConfig};
use vstd::prelude::*;

verus! {

/// How long a press must be held to cancel, where the settings do not say.
pub const DEFAULT_LONG_PRESS_MS: u64 = 600;

/// How long a press must be held to cancel; zero stands for the default.
pub fn normalize_long_press(ms: u64) -> (r: u64)
    ensures
        r == (if ms == 0 {
            DEFAULT_LONG_PRESS_MS
        } else {
            ms
        }),
        r > 0,
{
    if ms == 0 {
        DEFAULT_LONG_PRESS_MS
    } else {
        ms
    }
}

/// Whether the Caps Lock key drives dictation.
pub fn caps_loop_enabled(cfg: &VoiceConfig) -> (r: bool)
    ensures
        r == cfg.caps,
{
    cfg.caps
}

/// Whether the helper speaks.
pub open spec fn speaks(cfg: VoiceConfig) -> bool {
    cfg.tts == Some(TtsEngine::BuiltIn)
}

/// Whether the helper transcribes.
pub open spec fn transcribes(cfg: VoiceConfig) -> bool {
    cfg.stt == Some(SttEngine::BuiltIn) || cfg.stt == Some(SttEngine::System)
}

/// Whether the helper speaks.
pub fn helper_uses_tts(cfg: &VoiceConfig) -> (r: bool)
    ensures
        r == speaks(*cfg),
{
    matches!(cfg.tts, Some(TtsEngine::BuiltIn))
}

/// Whether the helper transcribes: with its own model, or by the operating system's
/// recognizer, which it hosts.
pub fn helper_uses_stt(cfg: &VoiceConfig) -> (r: bool)
    ensures
        r == transcribes(*cfg),
{
    matches!(cfg.stt, Some(SttEngine::BuiltIn) | Some(SttEngine::System))
}

/// Whether the helper is needed at all.
pub fn helper_needed(cfg: &VoiceConfig) -> (r: bool)
    ensures
        r == (speaks(*cfg) || transcribes(*cfg)),
{
    helper_uses_tts(cfg) || helper_uses_stt(cfg)
}

// ── Native libraries ─────────────────────────────────────────────────────────

/// Which native libraries are there. They ship apart, so that one may be missing.
#[derive(Debug, Clone, Copy, PartialEq, Eq, Structural)]
pub struct NativeShims {
    pub mlx: bool,
    pub fluid: bool,
}

impl Default for NativeShims {
    fn default() -> (r: Self)
        ensures
            r == (NativeShims { mlx: false, fluid: false }),
    {
        NativeShims { mlx: false, fluid: false }
    }
}

/// Whether a provider is native and its own library is there. Every other provider runs
/// on the ONNX runtime.
pub open spec fn native(provider: Provider, shims: NativeShims) -> bool {
    match provider {
        Provider::Mlx => shims.mlx,
        Provider::Fluid => shims.fluid,
        _ => false,
    }
}

fn native_shim_present(provider: Provider, shims: NativeShims) -> (r: bool)
    ensures
        r == native(provider, shims),
{
    match provider {
        Provider::Mlx => shims.mlx,
        Provider::Fluid => shims.fluid,
        _ => false,
    }
}

/// Whether the transcribing model runs on the ONNX runtime. A native provider whose
/// library is missing falls back to it.
pub fn stt_uses_onnx_runtime(provider: Provider, shims: NativeShims) -> (r: bool)
    ensures
        r == !native(provider, shims),
{
    !native_shim_present(provider, shims)
}

/// Whether the speaking model runs natively.
pub fn tts_uses_native_runtime(provider: Provider, shims: NativeShims) -> (r: bool)
    ensures
        r == native(provider, shims),
{
    native_shim_present(provider, shims)
}

/// Whether the helper speaks on a native runtime.
pub fn native_tts_active(cfg: &VoiceConfig, shims: NativeShims) -> (r: bool)
    ensures
        r == (speaks(*cfg) && native(cfg.tts_provider, shims)),
{
    helper_uses_tts(cfg) && tts_uses_native_runtime(cfg.tts_provider, shims)
}

/// Each native provider depends on its own library alone.
pub proof fn law_native_reads_only_its_own_library(a: NativeShims, b: NativeShims)
    ensures
        a.mlx == b.mlx ==> native(Provider::Mlx, a) == native(Provider::Mlx, b),
        a.fluid == b.fluid ==> native(Provider::Fluid, a) == native(Provider::Fluid, b),
        !native(Provider::OrtCpu, a) && !native(Provider::OrtCuda, a),
{
}

// ── Model files ──────────────────────────────────────────────────────────────

/// Which files of the transcribing model are there.
#[derive(Debug, Clone, Copy, PartialEq, Eq, Structural)]
pub struct SttFiles {
    /// The files of the ONNX runtime.
    pub onnx: bool,
    /// The set of the MLX provider.
    pub mlx: bool,
    /// The set of the Fluid provider.
    pub fluid: bool,
}

/// The files of the transcribing model for the ONNX runtime, and the runtime.
#[derive(Debug, Clone, Copy, PartialEq, Eq, Structural)]
pub struct ParakeetFiles {
    pub encoder: bool,
    pub decoder: bool,
    pub joiner: bool,
    pub tokens: bool,
    pub onnx_runtime: bool,
}

/// Whether all files of the transcribing model for the ONNX runtime are there, and the
/// runtime.
pub fn parakeet_onnx_files_present(files: ParakeetFiles) -> (r: bool)
    ensures
        r == (files.encoder && files.decoder && files.joiner && files.tokens
            && files.onnx_runtime),
{
    files.encoder && files.decoder && files.joiner && files.tokens && files.onnx_runtime
}

/// Whether the transcribing model can be loaded on the MLX provider.
pub fn parakeet_available(shims: NativeShims, set_present: bool) -> (r: bool)
    ensures
        r == (shims.mlx && set_present),
{
    shims.mlx && set_present
}

/// Whether the transcribing model can be loaded on the Fluid provider.
pub fn parakeet_fluid_available(shims: NativeShims, set_present: bool) -> (r: bool)
    ensures
        r == (shims.fluid && set_present),
{
    shims.fluid && set_present
}

/// Whether the transcribing model can be loaded: the files of the runtime that it would
/// run on are there.
pub open spec fn stt_model_present(cfg: VoiceConfig, shims: NativeShims, files: SttFiles) -> bool {
    if !native(cfg.stt_provider, shims) {
        files.onnx
    } else if cfg.stt_provider == Provider::Fluid {
        files.fluid
    } else {
        files.mlx
    }
}

/// Whether the transcribing model can be loaded; see [`stt_model_present`].
pub fn parakeet_present_for(cfg: &VoiceConfig, shims: NativeShims, files: SttFiles) -> (r: bool)
    ensures
        r == stt_model_present(*cfg, shims, files),
{
    if stt_uses_onnx_runtime(cfg.stt_provider, shims) {
        files.onnx
    } else if cfg.stt_provider == Provider::Fluid {
        parakeet_fluid_available(shims, files.fluid)
    } else {
        parakeet_available(shims, files.mlx)
    }
}

/// Which files of the speaking model are there.
#[derive(Debug, Clone, Copy, PartialEq, Eq, Structural)]
pub struct TtsFiles {
    /// The encoder of Kokoro's pronunciation model.
    pub g2p_encoder: bool,
    /// The decoder of Kokoro's pronunciation model.
    pub g2p_decoder: bool,
    /// Kokoro's set of the Fluid provider.
    pub fluid_set: bool,
    /// Kokoro's voices.
    pub voices: bool,
    /// The selected model's set of the MLX provider.
    pub mlx_set: bool,
    /// The selected model's files for the ONNX runtime.
    pub portable: bool,
    /// The ONNX runtime.
    pub onnx_runtime: bool,
}

/// Whether Kokoro's pronunciation model can run: it is there, and so is the ONNX runtime.
pub fn kokoro_g2p_files_present(files: TtsFiles) -> (r: bool)
    ensures
        r == (files.g2p_encoder && files.g2p_decoder && files.onnx_runtime),
{
    files.g2p_encoder && files.g2p_decoder && files.onnx_runtime
}

/// Whether the speaking model can be loaded.
pub open spec fn tts_model_present(cfg: VoiceConfig, shims: NativeShims, files: TtsFiles) -> bool {
    if speaks(cfg) && native(cfg.tts_provider, shims) {
        &&& cfg.tts_model == TtsModel::Kokoro ==> files.g2p_encoder && files.g2p_decoder
            && files.onnx_runtime
        &&& if cfg.tts_provider == Provider::Fluid {
            files.fluid_set && files.voices
        } else {
            files.mlx_set
        }
    } else {
        files.portable && files.onnx_runtime
    }
}

/// Whether the speaking model can be loaded; see [`tts_model_present`].
pub fn tts_model_files_present(cfg: &VoiceConfig, shims: NativeShims, files: TtsFiles) -> (r: bool)
    ensures
        r == tts_model_present(*cfg, shims, files),
{
    if native_tts_active(cfg, shims) {
        if cfg.tts_model == TtsModel::Kokoro && !kokoro_g2p_files_present(files) {
            return false;
        }
        if cfg.tts_provider == Provider::Fluid {
            files.fluid_set && files.voices
        } else {
            files.mlx_set
        }
    } else {
        files.portable && files.onnx_runtime
    }
}

/// Whether the helper may load the speaking model ahead of its first use.
pub fn helper_preloads_tts(cfg: &VoiceConfig, shims: NativeShims, files: TtsFiles) -> (r: bool)
    ensures
        r == (speaks(*cfg) && tts_model_present(*cfg, shims, files)),
{
    helper_uses_tts(cfg) && tts_model_files_present(cfg, shims, files)
}

/// Whether a dictation can be transcribed on this machine now. That it can may change
/// without a change of the settings, when a download ends.
pub fn local_stt_available(
    cfg: &VoiceConfig,
    shims: NativeShims,
    files: SttFiles,
    system_available: bool,
) -> (r: bool)
    ensures
        r == match cfg.stt {
            Some(SttEngine::BuiltIn) => stt_model_present(*cfg, shims, files),
            Some(SttEngine::System) => system_available,
            _ => false,
        },
{
    match cfg.stt {
        Some(SttEngine::BuiltIn) => parakeet_present_for(cfg, shims, files),
        Some(SttEngine::System) => system_available,
        _ => false,
    }
}

/// Whether the operating system is to be asked for leave to transcribe.
pub fn system_stt_needs_authorization(cfg: &VoiceConfig, system_ready: bool) -> (r: bool)
    ensures
        r == (cfg.stt == Some(SttEngine::System) && !system_ready),
{
    matches!(cfg.stt, Some(SttEngine::System)) && !system_ready
}

/// What the helper transcribes with.
#[derive(Debug, Clone, Copy, PartialEq, Eq, Structural)]
pub enum HelperStt {
    /// The recognizer of the operating system.
    System,
    /// The helper's own model, on this provider.
    Runtime(Provider),
}

/// What the helper transcribes with.
pub fn helper_stt_provider(cfg: &VoiceConfig) -> (r: HelperStt)
    ensures
        r == (if cfg.stt == Some(SttEngine::System) {
            HelperStt::System
        } else {
            HelperStt::Runtime(cfg.stt_provider)
        }),
{
    match cfg.stt {
        Some(SttEngine::System) => HelperStt::System,
        _ => HelperStt::Runtime(cfg.stt_provider),
    }
}

/// Whether speech and dictation overlap.
pub open spec fn overlaps(cfg: VoiceConfig) -> bool {
    cfg.full_duplex && cfg.stt == Some(SttEngine::BuiltIn) && cfg.tts == Some(TtsEngine::BuiltIn)
        && cfg.tts_model_full_duplex
}

/// Whether speech and dictation overlap: the settings ask for it, the helper does both
/// with models of its own, and the speaking model can keep up.
pub fn full_duplex_wanted(cfg: &VoiceConfig) -> (r: bool)
    ensures
        r == overlaps(*cfg),
{
    cfg.full_duplex && matches!(cfg.stt, Some(SttEngine::BuiltIn)) && matches!(
        cfg.tts,
        Some(TtsEngine::BuiltIn)
    ) && cfg.tts_model_full_duplex
}

/// Which models the helper is to hold.
#[derive(Debug, Clone, Copy, PartialEq, Eq, Structural)]
pub struct ModelPlan {
    pub tts: bool,
    pub stt: bool,
}

/// Which models a running helper is to hold, so that what it holds is what is selected.
/// Nothing is asked of a helper that is not needed or does not run.
pub fn reconcile_helper_models(
    cfg: &VoiceConfig,
    running: bool,
    shims: NativeShims,
    files: TtsFiles,
) -> (r: Option<ModelPlan>)
    ensures
        r == (if (speaks(*cfg) || transcribes(*cfg)) && running {
            Some(
                ModelPlan {
                    tts: speaks(*cfg) && tts_model_present(*cfg, shims, files),
                    stt: transcribes(*cfg),
                },
            )
        } else {
            None
        }),
{
    if !helper_needed(cfg) || !running {
        return None;
    }
    Some(
        ModelPlan { tts: helper_preloads_tts(cfg, shims, files), stt: helper_uses_stt(cfg) },
    )
}

// ── Readiness ────────────────────────────────────────────────────────────────

/// Whether a reply can be spoken now: the operating system's voice needs no model.
pub open spec fn playable(engine: Option<TtsEngine>, tts_loaded: bool) -> bool {
    match engine {
        None => false,
        Some(TtsEngine::System) => true,
        Some(TtsEngine::BuiltIn) => tts_loaded,
    }
}

/// Whether a reply can be spoken now.
pub fn tts_can_play(engine: Option<TtsEngine>, tts_loaded: bool) -> (r: bool)
    ensures
        r == playable(engine, tts_loaded),
{
    match engine {
        None => false,
        Some(TtsEngine::System) => true,
        Some(TtsEngine::BuiltIn) => tts_loaded,
    }
}

/// Whether a dictation can begin now: the agent's own dictation needs no model.
pub open spec fn startable(
    engine: Option<SttEngine>,
    stt_loaded: bool,
    system_ready: bool,
) -> bool {
    match engine {
        None => false,
        Some(SttEngine::BuiltIn) => stt_loaded,
        Some(SttEngine::System) => system_ready,
        Some(SttEngine::ClaudeCode) => true,
    }
}

/// Whether a dictation can begin now.
pub fn stt_can_start(engine: Option<SttEngine>, stt_loaded: bool, system_ready: bool) -> (r: bool)
    ensures
        r == startable(engine, stt_loaded, system_ready),
{
    match engine {
        None => false,
        Some(SttEngine::BuiltIn) => stt_loaded,
        Some(SttEngine::System) => system_ready,
        Some(SttEngine::ClaudeCode) => true,
    }
}

/// Whether a tap that cannot begin a dictation is answered with a sign: where the engine
/// has something to wait for.
pub open spec fn shows_refusal(engine: Option<SttEngine>) -> bool {
    engine == Some(SttEngine::BuiltIn) || engine == Some(SttEngine::System)
}

/// Whether a tap that cannot begin a dictation is answered with a sign.
pub fn refusal_cue_on_refused_start(resolved: Option<SttEngine>) -> (r: bool)
    ensures
        r == shows_refusal(resolved),
{
    matches!(resolved, Some(SttEngine::BuiltIn) | Some(SttEngine::System))
}

/// What to do about a helper that does not answer.
#[derive(Debug, Clone, Copy, PartialEq, Eq, Structural)]
pub enum HealAction {
    /// Nothing: it is loading, or its last start failed.
    Nothing,
    /// It has exited and still holds its place: clear that and start another.
    ReapAndStart,
    /// Its place is empty: start one.
    Start,
}

/// What to do about a helper that does not answer. One that died is started again; one
/// whose start failed is not, since it would fail again.
pub fn warm_child_heal_action(child_present: bool, child_exited: bool, start_error: bool) -> (r:
    HealAction)
    ensures
        r == (if child_present {
            if child_exited {
                HealAction::ReapAndStart
            } else {
                HealAction::Nothing
            }
        } else if start_error {
            HealAction::Nothing
        } else {
            HealAction::Start
        }),
{
    match (child_present, child_exited, start_error) {
        (true, true, _) => HealAction::ReapAndStart,
        (true, false, _) => HealAction::Nothing,
        (false, _, false) => HealAction::Start,
        (false, _, true) => HealAction::Nothing,
    }
}

// ── Reading a change ─────────────────────────────────────────────────────────

/// What a tick does about a change of the settings.
#[derive(Debug, Clone, Copy, PartialEq, Eq, Structural)]
pub enum ReloadTick {
    /// Read the settings.
    Run,
    /// A change is waiting for quiet.
    Defer,
    /// There is no change.
    Idle,
}

/// What a tick at `now` does about a change, and since when one waits: the settings are
/// read once no change has come for `window`.
pub open spec fn reload_step(
    triggered_now: bool,
    now: u64,
    pending_since: Option<u64>,
    window: u64,
) -> (ReloadTick, Option<u64>) {
    let anchor = if triggered_now {
        Some(now)
    } else {
        pending_since
    };
    match anchor {
        None => (ReloadTick::Idle, None),
        Some(t) => if now.saturating_sub(t) >= window {
            (ReloadTick::Run, None)
        } else {
            (ReloadTick::Defer, Some(t))
        },
    }
}

/// What a tick does about a change; see [`reload_step`].
pub fn reload_tick(triggered_now: bool, now: u64, pending_since: Option<u64>, window: u64) -> (r: (
    ReloadTick,
    Option<u64>,
))
    ensures
        r == reload_step(triggered_now, now, pending_since, window),
{
    let anchor = if triggered_now {
        Some(now)
    } else {
        pending_since
    };
    match anchor {
        None => (ReloadTick::Idle, None),
        Some(t) => if now.saturating_sub(t) >= window {
            (ReloadTick::Run, None)
        } else {
            (ReloadTick::Defer, Some(t))
        },
    }
}

/// A change that comes within the quiet window of another is read together with it: the
/// settings are read `window` after the last change, and not before.
pub proof fn law_changes_collapse(t: u64, later: u64, window: u64)
    requires
        window > 0,
        t <= later,
    ensures
        reload_step(true, t, None, window) == (ReloadTick::Defer, Some(t)),
        reload_step(false, later, Some(t), window).0 == (if later - t >= window {
            ReloadTick::Run
        } else {
            ReloadTick::Defer
        }),
        reload_step(true, later, Some(t), window) == (ReloadTick::Defer, Some(later)),
        reload_step(false, later, None, window) == (ReloadTick::Idle, None::<u64>),
{
}

/// Whether the settings file counts as changed since it was last seen: it has appeared,
/// or its time has advanced. A file that has gone keeps the settings as they are, and so
/// does one whose time went back.
pub open spec fn file_changed(last_seen: Option<u128>, current: Option<u128>) -> bool {
    current is Some && (last_seen is None || current->0 > last_seen->0)
}

/// Whether the settings file counts as changed since it was last seen.
pub fn should_reload_on_mtime(last_seen: Option<u128>, current: Option<u128>) -> (r: bool)
    ensures
        r == file_changed(last_seen, current),
{
    match (current, last_seen) {
        (Some(c), Some(l)) => c > l,
        (Some(_), None) => true,
        (None, _) => false,
    }
}

/// The time under which the settings file is remembered after it was read. Where the
/// file's time was what called for the reading, it is known; else the file is looked at
/// anew, lest the same change call for a second reading.
pub fn reload_watermark<F: FnOnce() -> Option<u128>>(
    mtime_changed: bool,
    current: Option<u128>,
    stat_now: F,
) -> (r: Option<u128>)
    requires
        !mtime_changed ==> stat_now.requires(()),
    ensures
        mtime_changed ==> r == current,
        !mtime_changed ==> stat_now.ensures((), r),
{
    if mtime_changed {
        current
    } else {
        stat_now()
    }
}

// ── Laws ─────────────────────────────────────────────────────────────────────

/// Which engine needs the helper: it speaks for the built-in engine alone, and transcribes
/// with its own model or with the operating system's recognizer, but not for an agent
/// that dictates itself.
pub proof fn law_what_the_helper_does(cfg: VoiceConfig)
    ensures
        speaks(cfg) <==> cfg.tts == Some(TtsEngine::BuiltIn),
        cfg.tts is None || cfg.tts == Some(TtsEngine::System) ==> !speaks(cfg),
        cfg.stt == Some(SttEngine::BuiltIn) ==> transcribes(cfg),
        cfg.stt == Some(SttEngine::System) ==> transcribes(cfg),
        cfg.stt == Some(SttEngine::ClaudeCode) || cfg.stt is None ==> !transcribes(cfg),
{
}

/// A provider runs natively with its own library and only with it.
pub proof fn law_native_needs_its_library(mlx: bool, fluid: bool)
    ensures
        native(Provider::Mlx, NativeShims { mlx, fluid }) == mlx,
        native(Provider::Fluid, NativeShims { mlx, fluid }) == fluid,
        !native(Provider::OrtCpu, NativeShims { mlx, fluid }),
        !native(Provider::OrtCuda, NativeShims { mlx, fluid }),
{
}

/// A speaking model is loaded from the files of the runtime that it runs on, and those of
/// other runtimes do not matter. Kokoro needs its pronunciation model besides on a native
/// runtime, which runs on the ONNX runtime.
pub proof fn law_speech_is_loaded_from_its_runtime(
    cfg: VoiceConfig,
    shims: NativeShims,
    f: TtsFiles,
)
    requires
        cfg.tts == Some(TtsEngine::BuiltIn),
    ensures
        cfg.tts_provider == Provider::Mlx && shims.mlx && cfg.tts_model != TtsModel::Kokoro ==> (
        tts_model_present(cfg, shims, f) <==> f.mlx_set),
        cfg.tts_provider == Provider::Mlx && shims.mlx && cfg.tts_model == TtsModel::Kokoro ==> (
        tts_model_present(cfg, shims, f) <==> f.mlx_set && f.g2p_encoder && f.g2p_decoder
            && f.onnx_runtime),
        cfg.tts_provider == Provider::Fluid && shims.fluid && cfg.tts_model == TtsModel::Kokoro
            ==> (tts_model_present(cfg, shims, f) <==> f.fluid_set && f.voices && f.g2p_encoder
            && f.g2p_decoder && f.onnx_runtime),
        cfg.tts_provider == Provider::OrtCpu || cfg.tts_provider == Provider::OrtCuda || (
        cfg.tts_provider == Provider::Mlx && !shims.mlx) || (cfg.tts_provider == Provider::Fluid
            && !shims.fluid) ==> (tts_model_present(cfg, shims, f) <==> f.portable
            && f.onnx_runtime),
{
}

/// The transcribing model is loaded from the files of the runtime that it runs on.
pub proof fn law_transcription_is_loaded_from_its_runtime(
    cfg: VoiceConfig,
    shims: NativeShims,
    f: SttFiles,
)
    ensures
        cfg.stt_provider == Provider::Mlx && shims.mlx ==> (stt_model_present(cfg, shims, f)
            <==> f.mlx),
        cfg.stt_provider == Provider::Fluid && shims.fluid ==> (stt_model_present(cfg, shims, f)
            <==> f.fluid),
        cfg.stt_provider == Provider::OrtCpu || cfg.stt_provider == Provider::OrtCuda || (
        cfg.stt_provider == Provider::Mlx && !shims.mlx) || (cfg.stt_provider == Provider::Fluid
            && !shims.fluid) ==> (stt_model_present(cfg, shims, f) <==> f.onnx),
{
}

/// Speech and dictation overlap only where both are the helper's own, the speaking model
/// can keep up, and the settings ask for it.
pub proof fn law_overlap_needs_everything(cfg: VoiceConfig)
    ensures
        overlaps(cfg) ==> cfg.full_duplex && cfg.tts_model_full_duplex && speaks(cfg)
            && cfg.stt == Some(SttEngine::BuiltIn),
        cfg.full_duplex && cfg.tts_model_full_duplex && cfg.stt == Some(SttEngine::BuiltIn)
            && cfg.tts == Some(TtsEngine::BuiltIn) ==> overlaps(cfg),
{
}

/// What can be used now: the operating system's voice always, and its recognizer once it is
/// ready; a model of the helper's once it is loaded; an agent's own dictation always; and
/// nothing that is switched off. A tap that finds a dictation not ready is answered with a
/// sign where waiting helps.
pub proof fn law_what_is_ready(loaded: bool, system_ready: bool)
    ensures
        playable(Some(TtsEngine::System), loaded),
        playable(Some(TtsEngine::BuiltIn), loaded) == loaded,
        !playable(None, loaded),
        startable(Some(SttEngine::BuiltIn), loaded, system_ready) == loaded,
        startable(Some(SttEngine::System), loaded, system_ready) == system_ready,
        startable(Some(SttEngine::ClaudeCode), loaded, system_ready),
        !startable(None, loaded, system_ready),
        shows_refusal(Some(SttEngine::BuiltIn)) && shows_refusal(Some(SttEngine::System)),
        !shows_refusal(Some(SttEngine::ClaudeCode)) && !shows_refusal(None),
{
}

/// The settings file counts as changed when it is newer than it was, or there for the
/// first time.
pub proof fn law_newer_file_has_changed(seen: u128, now: u128)
    ensures
        file_changed(Some(seen), Some(now)) <==> now > seen,
        file_changed(None, Some(now)),
        !file_changed(Some(seen), None),
        !file_changed(None, None),
{
}

} // verus!
