//! Starting, the main loop's clock, and starting again.

use dontspeakd::boot::{
    boot_plan, caps_relaunch_budget, install_bin, owns_pidfile, reload_plan, should_relaunch,
    startup, EngineError, MainLoop, CAPS_RELAUNCH_WINDOW, DL_PROGRESS_BUMP_INTERVAL,
    MAX_CAPS_RELAUNCHES, RELOAD_QUIET_WINDOW,
};
use dontspeakd::config::{
    DiarizerProvider, ListenMode, Provider, SttEngine, TtsEngine, TtsModel, VoiceConfig,
};
use dontspeakd::config_gate::{HelperStt, NativeShims, ReloadTick, TtsFiles};

#[test]
fn caps_relaunch_budget_missing_marker_starts_a_fresh_streak() {
    let written = caps_relaunch_budget(None, 1_700_000_000).expect("within budget");
    let (count, at) = written.trim().split_once(' ').expect("count + timestamp");
    assert_eq!(count, "1", "first-ever detection writes count=1");
    assert_eq!(at, "1700000000");
}

#[test]
fn caps_relaunch_budget_trips_once_the_cap_is_reached() {
    let mut marker: Option<String> = None;
    for n in 0..MAX_CAPS_RELAUNCHES {
        let next = caps_relaunch_budget(marker.as_deref(), 1_700_000_000);
        assert!(next.is_some(), "detection {n} should still be within budget");
        marker = next;
    }
    assert!(caps_relaunch_budget(marker.as_deref(), 1_700_000_000).is_none());
}

#[test]
fn caps_relaunch_budget_marker_older_than_the_window_is_a_fresh_streak() {
    let now: u64 = 1_700_000_000;
    let stale_at = now - (CAPS_RELAUNCH_WINDOW + 30);
    let marker = format!("{MAX_CAPS_RELAUNCHES} {stale_at}");
    let next = caps_relaunch_budget(Some(&marker), now);
    assert_eq!(next.as_deref(), Some("1 1700000000"));
}

#[test]
fn a_marker_that_makes_no_sense_is_a_fresh_streak() {
    for marker in ["", "x", "3", "3 x", "x 1700000000", "-1 1700000000"] {
        assert_eq!(
            caps_relaunch_budget(Some(marker), 1_700_000_000).as_deref(),
            Some("1 1700000000"),
            "marker {marker:?}"
        );
    }
}

#[test]
fn engine_error_display_matches_the_logged_reason() {
    assert_eq!(EngineError::HomeUnresolved.to_string(), "cannot resolve $HOME");
    assert_eq!(EngineError::PlatformInit("x".into()).to_string(), "platform init: x");
}

#[test]
fn startup_reports_what_is_missing_first() {
    assert_eq!(startup(true, Ok(())), Ok(()));
    assert_eq!(
        startup(false, Err("x".to_string())),
        Err(EngineError::HomeUnresolved)
    );
    assert_eq!(
        startup(true, Err("x".to_string())),
        Err(EngineError::PlatformInit("x".to_string()))
    );
}

#[test]
fn a_sibling_binary_is_preferred() {
    assert_eq!(install_bin("ds-helper", Some("/opt/ds"), true), "/opt/ds/ds-helper");
    assert_eq!(install_bin("ds-helper", Some("/opt/ds"), false), "ds-helper");
    assert_eq!(install_bin("ds-helper", None, true), "ds-helper");
}

#[test]
fn relaunch_and_pidfile_decisions() {
    assert!(should_relaunch(true, true));
    assert!(!should_relaunch(true, false));
    assert!(!should_relaunch(false, true));
    assert!(owns_pidfile(Some(7), 7));
    assert!(!owns_pidfile(Some(8), 7));
    assert!(!owns_pidfile(None, 7));
}

#[test]
fn a_change_of_the_settings_is_read_once_it_is_quiet() {
    let mut main = MainLoop::new(10_000, Some(1));
    let first = main.pass(10_000, false);
    assert!(first.probe_ax && first.stat_config);
    assert_eq!(main.decide_reload(false, Some(Some(2)), 10_000), ReloadTick::Defer);
    assert_eq!(
        main.decide_reload(false, None, 10_000 + RELOAD_QUIET_WINDOW - 1),
        ReloadTick::Defer
    );
    assert_eq!(
        main.decide_reload(false, None, 10_000 + RELOAD_QUIET_WINDOW),
        ReloadTick::Run
    );
    main.reloaded(Some(2));
    assert_eq!(
        main.decide_reload(false, Some(Some(2)), 20_000),
        ReloadTick::Idle,
        "a file that was read is not read again"
    );
}

#[test]
fn the_end_of_downloads_is_shown_once() {
    let mut main = MainLoop::new(10_000, None);
    let step = DL_PROGRESS_BUMP_INTERVAL;
    assert!(!main.pass(10_000 + step, false).bump, "nothing to show");
    assert!(main.pass(10_000 + 2 * step, true).bump);
    assert!(!main.pass(10_001 + 2 * step, true).bump, "not before the next time");
    assert!(main.pass(10_001 + 3 * step, false).bump, "the end is shown");
    assert!(!main.pass(10_001 + 4 * step, false).bump, "and once only");
}

fn config() -> VoiceConfig {
    VoiceConfig {
        caps: true,
        stt: Some(SttEngine::System),
        stt_provider: Provider::OrtCpu,
        tts: Some(TtsEngine::BuiltIn),
        tts_provider: Provider::OrtCpu,
        tts_model: TtsModel::Kokoro,
        tts_model_full_duplex: false,
        full_duplex: false,
        long_press_ms: 0,
        listen_mode: ListenMode::Always,
        submit_confirm_ms: 1000,
        endpoint_silence_ms: 700,
        paste_submit_delay_ms: 0,
        double_tap_submits: false,
        clears_current: true,
        clears_other: false,
        pause_in_background: false,
        diarization: false,
        diarizer: DiarizerProvider::Fluid,
        speaker_lock: false,
    }
}

#[test]
fn the_engine_starts_with_what_the_settings_ask_for() {
    let shims = NativeShims { mlx: false, fluid: false };
    let files = TtsFiles {
        g2p_encoder: true,
        g2p_decoder: true,
        fluid_set: false,
        voices: true,
        mlx_set: false,
        portable: true,
        onnx_runtime: true,
    };
    let plan = boot_plan(&config(), shims, files, false);
    assert_eq!(plan.long_press_ms, 600);
    assert!(plan.authorize, "the recognizer of the system is not ready");
    assert_eq!(plan.stt, HelperStt::System);
    assert!(plan.load_tts && plan.run_helper);
    assert!(!plan.full_duplex);
    let bare = TtsFiles { portable: false, ..files };
    assert!(!boot_plan(&config(), shims, bare, true).load_tts);
    assert!(!boot_plan(&config(), shims, bare, true).authorize);
}

#[test]
fn a_reload_touches_only_what_changed() {
    let before = config();
    let none: Vec<String> = Vec::new();
    let one = vec!["qwen".to_string()];
    let same = reload_plan(&before, &before, &one, &one, true);
    assert!(!same.reset_stt_stats && !same.reconcile_wire && !same.authorize);
    let other = VoiceConfig { stt: Some(SttEngine::BuiltIn), ..before };
    let changed = reload_plan(&other, &before, &none, &one, false);
    assert!(changed.reset_stt_stats && changed.reconcile_wire && !changed.authorize);
}
