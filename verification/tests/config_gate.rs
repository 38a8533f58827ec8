//! What follows from the settings.

use dontspeakd::config::{
    DiarizerProvider, ListenMode, Provider, SttEngine, TtsEngine, TtsModel, VoiceConfig,
};
use dontspeakd::config_gate::{
    caps_loop_enabled, full_duplex_wanted, helper_needed, helper_stt_provider, helper_uses_stt,
    helper_uses_tts, local_stt_available, normalize_long_press, parakeet_onnx_files_present,
    parakeet_present_for, reconcile_helper_models, refusal_cue_on_refused_start, reload_tick,
    reload_watermark, should_reload_on_mtime, stt_can_start, stt_uses_onnx_runtime,
    system_stt_needs_authorization, kokoro_g2p_files_present, parakeet_available,
    parakeet_fluid_available, tts_can_play, tts_model_files_present, tts_uses_native_runtime,
    warm_child_heal_action, HealAction, HelperStt, ModelPlan, NativeShims, ParakeetFiles,
    ReloadTick, SttFiles, TtsFiles, DEFAULT_LONG_PRESS_MS,
};

const BOTH: NativeShims = NativeShims { mlx: true, fluid: true };
const NEITHER: NativeShims = NativeShims { mlx: false, fluid: false };

fn config() -> VoiceConfig {
    VoiceConfig {
        caps: true,
        stt: Some(SttEngine::BuiltIn),
        stt_provider: Provider::OrtCpu,
        tts: Some(TtsEngine::BuiltIn),
        tts_provider: Provider::OrtCpu,
        tts_model: TtsModel::Kokoro,
        tts_model_full_duplex: true,
        full_duplex: false,
        long_press_ms: 0,
        listen_mode: ListenMode::PushToTalk,
        submit_confirm_ms: 1000,
        endpoint_silence_ms: 700,
        paste_submit_delay_ms: 0,
        double_tap_submits: false,
        clears_current: true,
        clears_other: false,
        pause_in_background: false,
        diarization: false,
        diarizer: DiarizerProvider::Fluid,
        speaker_lock: false,
    }
}

#[test]
fn stt_uses_onnx_runtime_gates_on_the_shim_not_the_raw_provider() {
    assert!(!stt_uses_onnx_runtime(Provider::Mlx, BOTH));
    assert!(stt_uses_onnx_runtime(Provider::Mlx, NEITHER));
    assert!(stt_uses_onnx_runtime(Provider::OrtCpu, NEITHER));
    assert!(stt_uses_onnx_runtime(Provider::OrtCpu, BOTH));
    assert!(stt_uses_onnx_runtime(Provider::OrtCuda, NEITHER));
    assert!(stt_uses_onnx_runtime(Provider::OrtCuda, BOTH));
}

#[test]
fn native_gates_read_only_their_own_family_dylib() {
    let mlx_only = NativeShims { mlx: true, fluid: false };
    let fluid_only = NativeShims { mlx: false, fluid: true };
    let cases = [
        (Provider::Mlx, mlx_only, false, true),
        (Provider::Mlx, fluid_only, true, false),
        (Provider::Fluid, fluid_only, false, true),
        (Provider::Fluid, mlx_only, true, false),
        (Provider::OrtCpu, BOTH, true, false),
        (Provider::OrtCpu, NEITHER, true, false),
        (Provider::OrtCuda, BOTH, true, false),
        (Provider::OrtCuda, NEITHER, true, false),
    ];
    for (provider, shims, want_onnx, want_native_tts) in cases {
        assert_eq!(
            stt_uses_onnx_runtime(provider, shims),
            want_onnx,
            "stt {provider:?} shims={shims:?}"
        );
        assert_eq!(
            tts_uses_native_runtime(provider, shims),
            want_native_tts,
            "tts {provider:?} shims={shims:?}"
        );
    }
}

#[test]
fn tts_uses_native_runtime_gates_on_the_shim_not_the_raw_provider() {
    assert!(tts_uses_native_runtime(Provider::Mlx, BOTH));
    assert!(!tts_uses_native_runtime(Provider::Mlx, NEITHER));
    assert!(tts_uses_native_runtime(Provider::Fluid, BOTH));
    assert!(!tts_uses_native_runtime(Provider::Fluid, NEITHER));
    assert!(!tts_uses_native_runtime(Provider::OrtCpu, BOTH));
}

#[test]
fn normalize_long_press_uses_default_on_zero() {
    assert_eq!(normalize_long_press(0), DEFAULT_LONG_PRESS_MS);
    assert_eq!(normalize_long_press(750), 750);
    assert_eq!(normalize_long_press(1), 1);
}

#[test]
fn caps_loop_enabled_mirrors_the_toggle() {
    let cfg = |caps: bool| VoiceConfig { caps, ..config() };
    assert!(caps_loop_enabled(&cfg(true)));
    assert!(!caps_loop_enabled(&cfg(false)));
}

#[test]
fn should_reload_on_mtime_decision_table() {
    let t: u128 = 1000;
    let t2: u128 = 1001;
    assert!(should_reload_on_mtime(None, Some(t)));
    assert!(!should_reload_on_mtime(Some(t), Some(t)));
    assert!(should_reload_on_mtime(Some(t), Some(t2)));
    assert!(!should_reload_on_mtime(Some(t), None));
    assert!(!should_reload_on_mtime(None, None));
}

#[test]
fn reload_watermark_takes_fresh_stat_only_on_hup_only_reload() {
    let stale: u128 = 1000;
    let fresh: u128 = 1001;

    let mut statted = false;
    let r = reload_watermark(true, Some(fresh), || {
        statted = true;
        Some(stale)
    });
    assert_eq!(r, Some(fresh));
    assert!(!statted, "a stat-tick reload must not stat again");

    let r = reload_watermark(false, Some(stale), || Some(fresh));
    assert_eq!(
        r,
        Some(fresh),
        "a hup-only reload must advance last_seen to the file's real mtime"
    );
}

#[test]
fn reload_tick_idle_when_nothing_triggered() {
    assert_eq!(reload_tick(false, 5000, None, 250), (ReloadTick::Idle, None));
}

#[test]
fn reload_tick_defers_then_runs_once_the_quiet_window_elapses() {
    let base: u64 = 5000;
    let window: u64 = 250;

    let (tick, pending) = reload_tick(true, base, None, window);
    assert_eq!(tick, ReloadTick::Defer);
    assert_eq!(pending, Some(base));

    let (tick, pending) = reload_tick(false, base + 100, pending, window);
    assert_eq!(tick, ReloadTick::Defer);
    assert_eq!(pending, Some(base));

    let (tick, pending) = reload_tick(false, base + window, pending, window);
    assert_eq!(tick, ReloadTick::Run);
    assert_eq!(pending, None);
}

#[test]
fn reload_tick_resets_the_window_on_a_second_trigger() {
    let base: u64 = 5000;
    let window: u64 = 750;
    let straggler_gap: u64 = 581;

    let (tick, pending) = reload_tick(true, base, None, window);
    assert_eq!(tick, ReloadTick::Defer);

    let straggler_at = base + straggler_gap;
    let (tick, pending) = reload_tick(true, straggler_at, pending, window);
    assert_eq!(tick, ReloadTick::Defer);
    assert_eq!(pending, Some(straggler_at), "anchor re-armed on the second trigger");

    let (tick, pending) = reload_tick(false, straggler_at + window, pending, window);
    assert_eq!(tick, ReloadTick::Run);
    assert_eq!(pending, None);

    assert!(straggler_gap < window);
}

#[test]
fn reload_tick_idle_pending_none_does_not_spuriously_run() {
    assert_eq!(reload_tick(false, 15_000, None, 250), (ReloadTick::Idle, None));
}

#[test]
fn tts_can_play_gates_on_engine_readiness() {
    assert!(!tts_can_play(None, true));
    assert!(!tts_can_play(None, false));
    assert!(tts_can_play(Some(TtsEngine::System), false));
    assert!(tts_can_play(Some(TtsEngine::System), true));
    assert!(!tts_can_play(Some(TtsEngine::BuiltIn), false));
    assert!(tts_can_play(Some(TtsEngine::BuiltIn), true));
}

#[test]
fn model_capability_gates_full_duplex() {
    let cfg = VoiceConfig {
        tts_model: TtsModel::Chatterbox,
        tts_model_full_duplex: false,
        full_duplex: true,
        ..config()
    };
    assert!(helper_uses_tts(&cfg));
    assert!(helper_needed(&cfg));
    assert!(!full_duplex_wanted(&cfg));
}

#[test]
fn helper_gates_read_the_resolved_engine() {
    let c = VoiceConfig { tts: None, stt: Some(SttEngine::ClaudeCode), ..config() };
    assert!(!helper_uses_tts(&c));
    assert!(!helper_uses_stt(&c));
    assert!(!helper_needed(&c));
    assert_ne!(helper_stt_provider(&c), HelperStt::System);
    assert!(!full_duplex_wanted(&VoiceConfig { full_duplex: true, ..c }));

    let c2 = config();
    assert!(helper_uses_tts(&c2));
    assert!(helper_uses_stt(&c2));
    assert!(helper_needed(&c2));
    assert!(full_duplex_wanted(&VoiceConfig { full_duplex: true, ..c2 }));

    let system = VoiceConfig { stt: Some(SttEngine::System), ..config() };
    assert_eq!(helper_stt_provider(&system), HelperStt::System);
}

#[test]
fn warm_child_heal_restarts_only_a_dead_child() {
    assert_eq!(warm_child_heal_action(true, true, false), HealAction::ReapAndStart);
    assert_eq!(warm_child_heal_action(true, true, true), HealAction::ReapAndStart);
    assert_eq!(warm_child_heal_action(true, false, false), HealAction::Nothing);
    assert_eq!(warm_child_heal_action(true, false, true), HealAction::Nothing);
    assert_eq!(warm_child_heal_action(false, false, false), HealAction::Start);
    assert_eq!(warm_child_heal_action(false, false, true), HealAction::Nothing);
}

#[test]
fn stt_can_start_gates_on_engine_availability() {
    assert!(!stt_can_start(None, true, true));
    assert!(!stt_can_start(Some(SttEngine::BuiltIn), false, true));
    assert!(stt_can_start(Some(SttEngine::BuiltIn), true, false));
    assert!(!stt_can_start(Some(SttEngine::System), true, false));
    assert!(stt_can_start(Some(SttEngine::System), false, true));
    assert!(stt_can_start(Some(SttEngine::ClaudeCode), false, false));
}

#[test]
fn refusal_cue_only_for_runtime_gated_engines() {
    assert!(refusal_cue_on_refused_start(Some(SttEngine::BuiltIn)));
    assert!(refusal_cue_on_refused_start(Some(SttEngine::System)));
    assert!(!refusal_cue_on_refused_start(Some(SttEngine::ClaudeCode)));
    assert!(!refusal_cue_on_refused_start(None));
}

#[test]
fn a_missing_library_needs_the_onnx_files() {
    let cfg = VoiceConfig { stt_provider: Provider::Mlx, ..config() };
    let native = SttFiles { onnx: false, mlx: true, fluid: false };
    let onnx = SttFiles { onnx: true, mlx: false, fluid: false };
    assert!(parakeet_present_for(&cfg, BOTH, native));
    assert!(!parakeet_present_for(&cfg, BOTH, onnx));
    assert!(parakeet_present_for(&cfg, NEITHER, onnx));
    assert!(!parakeet_present_for(&cfg, NEITHER, native));
    assert!(local_stt_available(&cfg, BOTH, native, false));
    let system = VoiceConfig { stt: Some(SttEngine::System), ..cfg };
    assert!(local_stt_available(&system, NEITHER, native, true));
    assert!(system_stt_needs_authorization(&system, false));
    assert!(!system_stt_needs_authorization(&system, true));
    assert!(!system_stt_needs_authorization(&cfg, false));
}

#[test]
fn a_running_helper_holds_the_models_that_are_there() {
    let none = TtsFiles {
        portable: false,
        mlx_set: false,
        fluid_set: false,
        voices: false,
        g2p_encoder: false,
        g2p_decoder: false,
        onnx_runtime: false,
    };
    let all = TtsFiles {
        portable: true,
        mlx_set: true,
        fluid_set: true,
        voices: true,
        g2p_encoder: true,
        g2p_decoder: true,
        onnx_runtime: true,
    };
    let cfg = config();
    assert!(tts_model_files_present(&cfg, NEITHER, all));
    assert!(!tts_model_files_present(&cfg, NEITHER, none));
    assert_eq!(
        reconcile_helper_models(&cfg, true, NEITHER, all),
        Some(ModelPlan { tts: true, stt: true })
    );
    assert_eq!(
        reconcile_helper_models(&cfg, true, NEITHER, none),
        Some(ModelPlan { tts: false, stt: true })
    );
    assert_eq!(reconcile_helper_models(&cfg, false, NEITHER, all), None);
}

#[test]
fn parakeet_onnx_files_present_needs_all_four_plus_dylib() {
    let empty = ParakeetFiles {
        encoder: false,
        decoder: false,
        joiner: false,
        tokens: false,
        onnx_runtime: false,
    };
    let complete = ParakeetFiles {
        encoder: true,
        decoder: true,
        joiner: true,
        tokens: true,
        onnx_runtime: true,
    };
    assert!(!parakeet_onnx_files_present(empty));
    assert!(parakeet_onnx_files_present(complete));
    assert!(!parakeet_onnx_files_present(ParakeetFiles { encoder: false, ..complete }));
    assert!(!parakeet_onnx_files_present(ParakeetFiles { decoder: false, ..complete }));
    assert!(!parakeet_onnx_files_present(ParakeetFiles { joiner: false, ..complete }));
    assert!(!parakeet_onnx_files_present(ParakeetFiles { tokens: false, ..complete }));
    assert!(!parakeet_onnx_files_present(ParakeetFiles { onnx_runtime: false, ..complete }));
}

#[test]
fn a_native_model_needs_its_library_and_its_files() {
    assert!(parakeet_available(BOTH, true) && parakeet_fluid_available(BOTH, true));
    assert!(!parakeet_available(NEITHER, true) && !parakeet_fluid_available(NEITHER, true));
    assert!(!parakeet_available(BOTH, false) && !parakeet_fluid_available(BOTH, false));
    let files = TtsFiles {
        portable: false,
        mlx_set: true,
        fluid_set: false,
        voices: false,
        g2p_encoder: true,
        g2p_decoder: true,
        onnx_runtime: true,
    };
    assert!(kokoro_g2p_files_present(files));
    let cfg = VoiceConfig { tts_provider: Provider::Mlx, ..config() };
    assert!(tts_model_files_present(&cfg, BOTH, files));
    let mute = TtsFiles { g2p_decoder: false, ..files };
    assert!(!kokoro_g2p_files_present(mute));
    assert!(!tts_model_files_present(&cfg, BOTH, mute), "Kokoro needs its pronunciation model");
    let other = VoiceConfig { tts_model: TtsModel::Qwen, ..cfg };
    assert!(tts_model_files_present(&other, BOTH, mute));
}

#[test]
fn a_file_whose_time_went_back_is_not_read_again() {
    assert!(!should_reload_on_mtime(Some(1001), Some(1000)));
    assert!(should_reload_on_mtime(Some(1001), Some(1002)));
}
