//! Which models are fetched, how a fetch is tracked, and when a failed one is tried again.

use dontspeakd::config::{DiarizerProvider, ListenMode, Provider, TtsEngine, TtsModel, VoiceConfig};
use dontspeakd::config::SttEngine;
use dontspeakd::config_gate::NativeShims;
use dontspeakd::downloads::{
    apply_provider_and_autofetch, auto_download_missing, completion, compute_needs,
    diarization_needed, download_event_msg, download_needs_child_reload, fetch_plan, fetch_route,
    needed_downloads, needs_kokoro_frontend, retry_delay, should_prefetch_cuda, DownloadError,
    DownloadNeeds, DownloadProgress, DownloadState, DownloadTarget, FetchRoute, Probe, RetryGate,
    TargetState, AUTO_RETRY_BASE, AUTO_RETRY_CAP,
};

const NEITHER: NativeShims = NativeShims { mlx: false, fluid: false };

/// Settings with a speaking model on the CPU, and no dictation.
fn config(tts_model: TtsModel) -> VoiceConfig {
    VoiceConfig {
        caps: true,
        stt: None,
        stt_provider: Provider::OrtCpu,
        tts: Some(TtsEngine::BuiltIn),
        tts_provider: Provider::OrtCpu,
        tts_model,
        tts_model_full_duplex: false,
        full_duplex: false,
        long_press_ms: 0,
        listen_mode: ListenMode::PushToTalk,
        submit_confirm_ms: 1000,
        endpoint_silence_ms: 700,
        paste_submit_delay_ms: 0,
        double_tap_submits: false,
        clears_current: true,
        clears_other: false,
        pause_in_background: false,
        diarization: false,
        diarizer: DiarizerProvider::Fluid,
        speaker_lock: false,
    }
}

/// A machine that has everything, or nothing.
fn probe(there: bool) -> Probe {
    Probe {
        shims: NEITHER,
        kokoro_frontend: there,
        kokoro_fluid_set: there,
        kokoro_voices: there,
        tts_mlx_set: there,
        tts_portable: there,
        onnx_runtime: there,
        parakeet_onnx: there,
        parakeet_mlx_set: there,
        parakeet_fluid_set: there,
        diarization_mlx_set: there,
        diarization_fluid_set: there,
        sepformer: there,
        host_diarization_mlx: true,
        host_diarization_fluid: true,
        host_sepformer: true,
    }
}

fn failure(message: &str, permanent: bool) -> Result<(), DownloadError> {
    Err(DownloadError { message: message.to_string(), permanent })
}

#[test]
fn fetch_plan_puts_cuda_first_then_all_models() {
    let needs = DownloadNeeds {
        tts_model: Some(DownloadTarget::KokoroModel),
        parakeet_model: true,
        ..Default::default()
    };
    assert_eq!(
        fetch_plan(true, &needs),
        vec![
            DownloadTarget::Cuda,
            DownloadTarget::KokoroModel,
            DownloadTarget::ParakeetModel,
        ]
    );
    assert_eq!(
        fetch_plan(false, &needs),
        vec![DownloadTarget::KokoroModel, DownloadTarget::ParakeetModel]
    );
    assert_eq!(fetch_plan(false, &DownloadNeeds::default()), vec![]);
    assert_eq!(fetch_plan(true, &DownloadNeeds::default()), vec![DownloadTarget::Cuda]);
}

#[test]
fn corrupt_parakeet_files_remain_in_the_download_plan() {
    let cfg = VoiceConfig { tts: None, stt: Some(SttEngine::BuiltIn), ..config(TtsModel::Kokoro) };
    let corrupt = Probe { parakeet_onnx: false, ..probe(true) };
    assert!(
        compute_needs(&cfg, &corrupt).parakeet_model,
        "checksum-invalid files must be replaced even when every path exists"
    );
    assert!(!compute_needs(&cfg, &probe(true)).parakeet_model);
}

#[test]
fn checksum_invalid_tts_files_remain_in_the_download_plan() {
    let stale = Probe { tts_portable: false, ..probe(true) };
    assert_eq!(
        compute_needs(&config(TtsModel::Chatterbox), &stale).tts_model,
        Some(DownloadTarget::ChatterboxModel),
        "a complete-looking set with stale bytes must still reach the downloader"
    );
}

#[test]
fn child_reload_is_model_and_provider_aware() {
    let reload = |t: DownloadTarget, c: &VoiceConfig| download_needs_child_reload(t, c, NEITHER, false);
    let kokoro = config(TtsModel::Kokoro);
    assert!(reload(DownloadTarget::KokoroModel, &kokoro));
    assert!(!reload(DownloadTarget::ChatterboxModel, &kokoro));
    assert!(!reload(DownloadTarget::Cuda, &kokoro));

    let chatterbox = config(TtsModel::Chatterbox);
    assert!(reload(DownloadTarget::ChatterboxModel, &chatterbox));
    assert!(!reload(DownloadTarget::KokoroModel, &chatterbox));
    assert!(!reload(DownloadTarget::Cuda, &chatterbox));
}

#[test]
fn diarization_need_is_gated_on_host_support() {
    for host in [false, true] {
        assert_eq!(diarization_needed(host, true, false), host);
    }
    assert!(!diarization_needed(false, true, false));
    assert!(!diarization_needed(true, false, false));
    assert!(!diarization_needed(true, true, true));
    assert!(diarization_needed(true, true, false));
}

#[test]
fn kokoro_frontend_fetch_covers_mlx_and_onnx_gaps() {
    assert!(
        needs_kokoro_frontend(true, false, false),
        "Kokoro selected + frontend missing: must fetch it"
    );
    assert!(
        !needs_kokoro_frontend(true, true, false),
        "frontend assets already present: nothing to fetch"
    );
    assert!(
        !needs_kokoro_frontend(true, false, true),
        "KokoroModel download already installs the frontend"
    );
    assert!(
        needs_kokoro_frontend(true, false, false),
        "weights without a frontend still need it"
    );
    assert!(
        !needs_kokoro_frontend(false, false, false),
        "another model needs no Kokoro frontend assets"
    );
}

#[test]
fn needed_downloads_returns_all_targets_tts_first() {
    let need = |n: DownloadNeeds| needed_downloads(&n);
    assert_eq!(need(DownloadNeeds::default()), vec![]);
    assert_eq!(
        need(DownloadNeeds {
            tts_model: Some(DownloadTarget::KokoroModel),
            parakeet_model: true,
            ..Default::default()
        }),
        vec![DownloadTarget::KokoroModel, DownloadTarget::ParakeetModel]
    );
    assert_eq!(
        need(DownloadNeeds {
            tts_model: Some(DownloadTarget::KokoroMlx),
            kokoro_frontend: true,
            parakeet_mlx: true,
            diarization_mlx: true,
            ..Default::default()
        }),
        vec![
            DownloadTarget::KokoroMlx,
            DownloadTarget::KokoroFrontend,
            DownloadTarget::ParakeetMlx,
            DownloadTarget::DiarizationMlx,
        ]
    );
    assert_eq!(
        need(DownloadNeeds {
            kokoro_frontend: true,
            parakeet_model: true,
            ..Default::default()
        }),
        vec![DownloadTarget::KokoroFrontend, DownloadTarget::ParakeetModel]
    );
    assert_eq!(
        need(DownloadNeeds {
            tts_model: Some(DownloadTarget::ChatterboxModel),
            parakeet_model: true,
            ..Default::default()
        }),
        vec![DownloadTarget::ChatterboxModel, DownloadTarget::ParakeetModel]
    );
    assert_eq!(
        need(DownloadNeeds {
            tts_model: DownloadTarget::fluid_for_tts(TtsModel::Kokoro),
            kokoro_frontend: true,
            ..Default::default()
        }),
        vec![DownloadTarget::KokoroFluid, DownloadTarget::KokoroFrontend]
    );
    assert_eq!(
        need(DownloadNeeds {
            tts_model: DownloadTarget::fluid_for_tts(TtsModel::Kokoro),
            parakeet_fluid: true,
            ..Default::default()
        }),
        vec![DownloadTarget::KokoroFluid, DownloadTarget::ParakeetFluid]
    );
    assert_eq!(
        need(DownloadNeeds { diarization_fluid: true, ..Default::default() }),
        vec![DownloadTarget::DiarizationFluid]
    );
}

#[test]
fn a_fluid_tts_fetch_does_not_reload_a_child_that_cannot_host_it() {
    let kokoro = config(TtsModel::Kokoro);
    assert_eq!(
        DownloadTarget::KokoroFluid.tts_model(),
        Some(TtsModel::Kokoro),
        "the target still names its model"
    );
    assert!(!download_needs_child_reload(DownloadTarget::KokoroFluid, &kokoro, NEITHER, false));
    assert!(download_needs_child_reload(DownloadTarget::KokoroModel, &kokoro, NEITHER, false));
}

#[test]
fn parallel_targets_track_independent_progress_and_errors() {
    let mut s = DownloadState::new();
    let (kok, par) = (DownloadTarget::KokoroModel, DownloadTarget::ParakeetModel);
    let active = |done: u64, total: u64| TargetState::Active(DownloadProgress { done, total });

    assert!(s.begin_download_at(kok, 0), "fresh target begins");
    assert_eq!(
        s.target(kok),
        Some(&TargetState::Active(DownloadProgress::default())),
        "a fresh begin starts Active at zero progress"
    );
    assert!(s.begin_download_at(par, 0), "second target begins in parallel");
    s.record_progress(kok, 10, 100, 1);
    assert!(!s.begin_download_at(kok, 2), "in-flight target attaches");
    assert_eq!(
        s.target(kok),
        Some(&active(10, 100)),
        "attach must not reset the running fetch's progress"
    );

    s.record_progress(par, 5, 50, 3);
    assert_eq!(s.target(kok), Some(&active(10, 100)), "each tracks its own progress");
    assert_eq!(s.target(par), Some(&active(5, 50)));

    let failure_time: u64 = 1000;
    s.finish_download_at(par, failure("boom", false), failure_time);
    assert_eq!(s.target(par), Some(&TargetState::Failed("boom".into())));
    assert_eq!(s.target(kok), Some(&active(10, 100)), "other target unaffected");

    assert!(!s.begin_download_at(par, failure_time + AUTO_RETRY_BASE - 1));
    assert!(s.begin_download_at(par, failure_time + AUTO_RETRY_BASE));
    assert_eq!(
        s.target(par),
        Some(&TargetState::Active(DownloadProgress::default())),
        "a fresh begin over Failed drops the error"
    );

    s.finish_download_at(kok, Ok(()), 5000);
    assert_eq!(
        s.target(kok),
        Some(&TargetState::Done(DownloadProgress { done: 10, total: 100 })),
        "a successful finish must retire the Active progress into Done"
    );
}

#[test]
fn permanent_failures_latch_without_blocking_other_targets() {
    let now: u64 = 1000;
    let mut state = DownloadState::new();
    let kokoro = DownloadTarget::KokoroModel;
    let parakeet = DownloadTarget::ParakeetModel;
    assert!(state.begin_download_at(kokoro, now));
    state.finish_download_at(kokoro, failure("checksum mismatch", true), now);

    assert_eq!(state.retry_gate(kokoro), Some(RetryGate::Permanent));
    assert!(!state.begin_download_at(kokoro, now + 24 * 60 * 60 * 1000));
    assert!(state.begin_download_at(parakeet, now));

    state.finish_download_at(parakeet, failure("repository missing", true), now);
    assert_eq!(state.retry_gate(parakeet), Some(RetryGate::Permanent));
}

#[test]
fn transient_failures_back_off_exponentially_and_success_clears_the_gate() {
    let now: u64 = 1000;
    let mut state = DownloadState::new();
    let target = DownloadTarget::ParakeetModel;

    assert!(state.begin_download_at(target, now));
    state.finish_download_at(target, failure("offline", false), now);
    assert_eq!(
        state.retry_gate(target),
        Some(RetryGate::Transient { failures: 1, not_before: now + AUTO_RETRY_BASE })
    );
    assert!(!state.begin_download_at(target, now + AUTO_RETRY_BASE - 1));

    let second = now + AUTO_RETRY_BASE;
    assert!(state.begin_download_at(target, second));
    state.finish_download_at(target, failure("offline", false), second);
    assert_eq!(
        state.retry_gate(target),
        Some(RetryGate::Transient { failures: 2, not_before: second + AUTO_RETRY_BASE * 2 })
    );
    assert_eq!(retry_delay(100), AUTO_RETRY_CAP);

    let due = second + AUTO_RETRY_BASE * 2;
    assert!(state.begin_download_at(target, due));
    state.finish_download_at(target, Ok(()), due);
    assert_eq!(state.retry_gate(target), None);
    assert!(matches!(state.target(target), Some(TargetState::Done(_))));
}

#[test]
fn waits_double_up_to_the_cap() {
    assert_eq!(retry_delay(0), AUTO_RETRY_BASE);
    assert_eq!(retry_delay(1), AUTO_RETRY_BASE);
    assert_eq!(retry_delay(2), 40_000);
    assert_eq!(retry_delay(6), 640_000);
    assert_eq!(retry_delay(7), AUTO_RETRY_CAP);
}

#[test]
fn fresh_begin_replaces_prior_done() {
    let mut s = DownloadState::new();
    let kok = DownloadTarget::KokoroModel;

    assert!(s.begin_download_at(kok, 0));
    s.finish_download_at(kok, Ok(()), 1);
    assert!(matches!(s.target(kok), Some(TargetState::Done(_))));

    assert!(s.begin_download_at(kok, 2), "fresh start begins again");
    assert_eq!(
        s.target(kok),
        Some(&TargetState::Active(DownloadProgress::default())),
        "a begin must replace a stale Done entry with a fresh Active one"
    );
}

#[test]
fn finish_on_non_active_target_records_error_but_not_done() {
    let mut s = DownloadState::new();
    let kok = DownloadTarget::KokoroModel;

    s.finish_download_at(kok, Ok(()), 0);
    assert_eq!(
        s.target(kok),
        None,
        "Ok on a never-begun target must not conjure a Done entry"
    );

    s.finish_download_at(kok, failure("boom", false), 0);
    assert_eq!(
        s.target(kok),
        Some(&TargetState::Failed("boom".into())),
        "an error is always recorded, active or not"
    );
}

#[test]
fn any_active_ignores_done_and_failed_entries() {
    let mut s = DownloadState::new();
    let (kok, par) = (DownloadTarget::KokoroModel, DownloadTarget::ParakeetModel);
    assert!(!s.any_active(), "fresh state has nothing in flight");

    assert!(s.begin_download_at(kok, 0));
    assert!(s.any_active(), "an Active entry reads in flight");

    s.finish_download_at(kok, Ok(()), 1);
    assert!(s.begin_download_at(par, 1));
    s.finish_download_at(par, failure("boom", false), 2);
    assert!(
        s.target(kok).is_some() && s.target(par).is_some() && !s.any_active(),
        "ended entries persist but must not read as in flight"
    );
}

#[test]
fn the_first_bytes_start_the_clock() {
    let mut s = DownloadState::new();
    let kok = DownloadTarget::KokoroModel;
    s.record_progress(kok, 1, 2, 0);
    assert_eq!(s.target(kok), None, "progress of nothing is passed over");
    assert!(s.begin_download_at(kok, 0));
    assert_eq!(s.transfer_start(kok), None);
    s.record_progress(kok, 100, 1000, 50);
    s.record_progress(kok, 300, 1000, 60);
    assert_eq!(s.transfer_start(kok), Some((50, 100)));
    s.finish_download_at(kok, Ok(()), 70);
    assert_eq!(s.transfer_start(kok), None);
}

#[test]
fn download_event_msg_formats_phase_with_and_without_detail() {
    assert_eq!(
        download_event_msg(DownloadTarget::KokoroModel, "started", None),
        "model download (kokoro_model) started"
    );
    assert_eq!(
        download_event_msg(DownloadTarget::KokoroModel, "failed", Some("boom")),
        "model download (kokoro_model) failed: boom"
    );
}

#[test]
fn cuda_prefetch_requires_a_wanted_runtime_a_driver_and_an_absent_runtime() {
    assert!(should_prefetch_cuda(true, true, false));
    assert!(!should_prefetch_cuda(false, true, false));
    assert!(!should_prefetch_cuda(true, false, false));
    assert!(!should_prefetch_cuda(true, true, true));
}

#[test]
fn every_target_has_a_route_where_it_is_supported() {
    assert_eq!(fetch_route(DownloadTarget::KokoroModel, true), Ok(FetchRoute::Kokoro));
    assert_eq!(
        fetch_route(DownloadTarget::QwenMlx, true),
        Ok(FetchRoute::TtsMlx(TtsModel::Qwen))
    );
    assert_eq!(
        fetch_route(DownloadTarget::ParakeetFluid, false),
        Err("'parakeet_fluid' is not available on this platform".to_string())
    );
}

#[test]
fn the_end_of_a_download_is_followed_up() {
    let cfg = config(TtsModel::Kokoro);
    let done = completion(DownloadTarget::KokoroModel, true, true, true, &cfg, NEITHER, true, false);
    assert!(done.reload && done.restart_helper);
    assert_eq!(done.preload, Some(true));
    let other = completion(DownloadTarget::QwenModel, true, true, true, &cfg, NEITHER, true, false);
    assert!(other.reload && !other.restart_helper);
    let failed = completion(DownloadTarget::KokoroModel, false, true, true, &cfg, NEITHER, true, false);
    assert!(!failed.reload && !failed.restart_helper && failed.preload.is_none());
    let alone = completion(DownloadTarget::KokoroModel, true, true, false, &cfg, NEITHER, true, false);
    assert!(alone.reload && !alone.restart_helper);
}

#[test]
fn a_complete_machine_needs_nothing() {
    let cfg = VoiceConfig {
        stt: Some(SttEngine::BuiltIn),
        diarization: true,
        speaker_lock: true,
        ..config(TtsModel::Kokoro)
    };
    assert!(auto_download_missing(&cfg, &probe(true)).is_empty());
    assert_eq!(
        auto_download_missing(&cfg, &probe(false)),
        vec![
            DownloadTarget::KokoroModel,
            DownloadTarget::ParakeetModel,
            DownloadTarget::DiarizationFluid,
            DownloadTarget::SepformerModel,
        ]
    );
}

#[test]
fn the_cuda_runtime_is_fetched_along_where_it_can_be_used() {
    let cfg = config(TtsModel::Kokoro);
    assert_eq!(
        apply_provider_and_autofetch(&cfg, &probe(false), true, true, false),
        vec![DownloadTarget::Cuda, DownloadTarget::KokoroModel]
    );
    assert_eq!(
        apply_provider_and_autofetch(&cfg, &probe(false), true, false, false),
        vec![DownloadTarget::KokoroModel],
        "no driver, no runtime"
    );
    assert!(apply_provider_and_autofetch(&cfg, &probe(true), true, true, true).is_empty());
}
