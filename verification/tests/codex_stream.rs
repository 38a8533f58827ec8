//! Coalescing, endpoints, the registry and the supervisor of the Codex observer.

use dontspeakd::assoc::AssocMap;
use dontspeakd::coalesce::{is_narrated, BatchPayload, Coalescer, StreamBatch};
use dontspeakd::codex_stream::attached::{
    resolution_due, resume_in_flight, resume_wanted, Detach, Pending, ResolveState, ResumedSession,
};
use dontspeakd::codex_stream::endpoint::{
    app_server_args, bin_candidates, codex_home, control_socket_path, is_orphaned_state,
    parse_ws_url, resolve_codex_bin, resolve_endpoint, should_start_unix_server, standalone_path,
    unix_start_kind, ws_host, Endpoint, UnixStartKind, WindowsLayout, ORPHAN_MAX_AGE,
};
use dontspeakd::codex_stream::registry::{pace, resolve_launch_bin, Ensure, SessionRegistry};
use dontspeakd::codex_stream::supervisor::{
    missing_bin_message, next_backoff, refusal_message, retry_delay, should_park_supervisor, After,
    Conditions, ConnectFailure, GateStep, Outcome, OwnedProbe, Refusal, Supervisor, BACKOFF_CEIL,
    BACKOFF_FLOOR, LAUNCH_RETRY_DELAY, SERVER_START_MIN_GAP, STABLE_ATTACH,
};
use dontspeakd::text::same_path;

#[test]
fn pending_resume_suppresses_duplicate_resolution_work() {
    let now: u64 = 1000;
    let state = ResolveState { tries: 0, next_try: now, negative: false };
    let mut resolve: AssocMap<String, ResolveState> = AssocMap::new();
    resolve.insert("session-1".to_string(), state);
    let mut pending: AssocMap<i64, Pending> = AssocMap::new();
    let resumed: AssocMap<String, ResumedSession> = AssocMap::new();
    assert!(resolution_due("session-1", &state, &pending, now));
    assert!(resume_wanted("session-1", "session-1", &resolve, &resumed, &pending));

    pending.insert(
        1,
        Pending::Resume {
            thread_id: "session-1".to_string(),
            session: "session-1".to_string(),
            sent_at: now,
        },
    );

    assert!(
        !resolution_due("session-1", &state, &pending, now),
        "a pending resume must not trigger relisting"
    );
    assert!(
        !resume_wanted("session-1", "session-1", &resolve, &resumed, &pending),
        "a pending resume must not be enqueued again from a loaded-list reply"
    );

    let _ = pending.remove(&1);
    assert!(resolution_due("session-1", &state, &pending, now));
    assert!(resume_wanted("session-1", "session-1", &resolve, &resumed, &pending));
}

#[test]
fn resume_in_flight_is_keyed_by_session_not_request_id() {
    let mut pending: AssocMap<i64, Pending> = AssocMap::new();
    pending.insert(
        1,
        Pending::Resume {
            thread_id: "t1".to_string(),
            session: "session-a".to_string(),
            sent_at: 0,
        },
    );
    pending.insert(2, Pending::LoadedList { sent_at: 0 });
    assert!(resume_in_flight("session-a", &pending));
    assert!(!resume_in_flight("session-b", &pending));
}

#[test]
fn coalescer_flushes_on_newline_age_and_completed() {
    let mut c = Coalescer::new();
    let t0: u64 = 5000;
    assert!(c.on_delta("s", "i1", "> Spoken", t0).is_none());
    let (sess, batch) = c.on_delta("s", "i1", " line.\nBody", t0).expect("flush");
    assert_eq!(sess, "s");
    assert_eq!(
        batch,
        StreamBatch {
            key: "i1".into(),
            payload: BatchPayload::Delta {
                index: Some(0),
                text: "> Spoken line.\nBody".into(),
            },
            is_final: false,
        }
    );
    assert!(c.on_delta("s", "i1", " more", t0).is_none());
    let aged = c.flush_aged(t0 + 1000, 150, None);
    assert_eq!(aged.len(), 1);
    assert_eq!(
        aged[0].1.payload,
        BatchPayload::Delta { index: Some(1), text: " more".into() }
    );
    let (_, fin) = c.on_completed("s", "i1", "> Spoken line.\n\nBody more.");
    assert!(fin.is_final);
    assert_eq!(
        fin.payload,
        BatchPayload::Cumulative { text: "> Spoken line.\n\nBody more.".into() }
    );
    assert!(c.flush_aged(t0 + 9000, 0, None).is_empty());
}

#[test]
fn coalescer_turn_flush_scopes_to_one_session() {
    let mut c = Coalescer::new();
    let t0: u64 = 5000;
    assert!(c.on_delta("s1", "i1", "alpha", t0).is_none());
    assert!(c.on_delta("s2", "i2", "beta", t0).is_none());
    let flushed = c.flush_aged(t0, 0, Some("s1"));
    assert_eq!(flushed.len(), 1);
    assert_eq!(flushed[0].0, "s1");
    let rest = c.flush_aged(t0 + 1000, 0, None);
    assert_eq!(rest.len(), 1);
    assert_eq!(rest[0].0, "s2");
}

#[test]
fn coalescer_drop_session_clears_partial_buffers() {
    let mut c = Coalescer::new();
    let t0: u64 = 5000;
    assert!(c.on_delta("s1", "i1", "> Evicted session line", t0).is_none());
    assert!(c.on_delta("s2", "i2", "> Surviving session line", t0).is_none());
    c.drop_session("s1");
    assert!(c.flush_aged(t0, 0, Some("s1")).is_empty());
    let rest = c.flush_aged(t0 + 1000, 0, None);
    assert_eq!(rest.len(), 1);
    assert_eq!(rest[0].0, "s2");
    c.drop_session("unknown");
    assert!(!c.is_empty());
}

#[test]
fn streamed_text_comes_out_whole_and_numbered() {
    let mut c = Coalescer::new();
    let mut out = String::new();
    let mut next: u64 = 0;
    for (i, piece) in ["one", " two\nth", "ree", "\n", "four"].iter().enumerate() {
        if let Some((_, b)) = c.on_delta("s", "i", piece, i as u64) {
            match b.payload {
                BatchPayload::Delta { index, text } => {
                    assert_eq!(index, Some(next));
                    next += 1;
                    out.push_str(&text);
                }
                other => panic!("unexpected {other:?}"),
            }
        }
    }
    for (_, b) in c.flush_aged(1000, 150, None) {
        match b.payload {
            BatchPayload::Delta { index, text } => {
                assert_eq!(index, Some(next));
                out.push_str(&text);
            }
            other => panic!("unexpected {other:?}"),
        }
    }
    assert_eq!(out, "one two\nthree\nfour");
}

#[test]
fn batches_need_a_kind_that_is_narrated() {
    assert!(is_narrated(true, false));
    assert!(is_narrated(false, true));
    assert!(!is_narrated(false, false));
}

#[test]
fn control_socket_path_prefers_env_over_codex_dir() {
    assert_eq!(
        control_socket_path(None, "/home/u/.codex"),
        "/home/u/.codex/app-server-control/app-server-control.sock"
    );
    assert_eq!(
        control_socket_path(Some("/tmp/custom-codex-home"), "/home/u/.codex"),
        "/tmp/custom-codex-home/app-server-control/app-server-control.sock"
    );
    assert!(control_socket_path(Some(""), "/home/u/.codex").starts_with("/home/u/.codex"));
}

#[test]
fn ws_url_parses_and_endpoint_resolution_prefers_the_override() {
    assert_eq!(
        parse_ws_url("ws://127.0.0.1:4550", true).as_deref(),
        Some("127.0.0.1:4550")
    );
    assert_eq!(
        parse_ws_url("ws://127.0.0.1:4550/path", true).as_deref(),
        Some("127.0.0.1:4550")
    );
    assert_eq!(parse_ws_url("wss://127.0.0.1:4550", true), None, "no TLS endpoints");
    assert_eq!(parse_ws_url("127.0.0.1:4550", true), None, "scheme required");
    assert_eq!(parse_ws_url("ws://", true), None);

    assert!(
        resolve_endpoint("ws://10.0.0.5:9", false, None, "/h/.codex", true).is_none(),
        "plaintext non-loopback endpoints must be rejected"
    );
    match resolve_endpoint("", false, None, "/h/.codex", true) {
        Some(Endpoint::Unix(sock)) => assert!(sock.ends_with("app-server-control.sock")),
        _ => panic!("default must be the unix control socket"),
    }
    match resolve_endpoint("", false, None, "/h/.codex", false) {
        Some(Endpoint::Tcp(host)) => assert_eq!(host, "127.0.0.1:4500"),
        _ => panic!("default must be the loopback endpoint"),
    }
    assert!(resolve_endpoint("http://nope", false, None, "/h/.codex", true).is_none());
}

#[test]
fn the_host_of_an_address_is_found() {
    assert_eq!(ws_host("ws://127.0.0.1:4550/path").as_deref(), Some("127.0.0.1"));
    assert_eq!(ws_host("ws://[::1]:4500").as_deref(), Some("::1"));
    assert_eq!(ws_host("http://127.0.0.1:1"), None);
    assert_eq!(
        parse_ws_url("ws://localhost:4500", false).as_deref(),
        Some("localhost:4500")
    );
}

#[test]
fn endpoints_have_keys_and_arguments() {
    let unix = Endpoint::Unix("/tmp/s".to_string());
    let tcp = Endpoint::Tcp("127.0.0.1:1".to_string());
    assert_eq!(unix.key(), "unix:/tmp/s");
    assert_eq!(tcp.key(), "tcp:127.0.0.1:1");
    assert_eq!(unix.remote_arg(), "unix:///tmp/s");
    assert_eq!(tcp.remote_arg(), "ws://127.0.0.1:1");
}

#[test]
fn should_start_unix_server_decision_table() {
    assert!(should_start_unix_server(true, true, true, false));
    assert!(!should_start_unix_server(false, true, true, false), "not opted in");
    assert!(
        !should_start_unix_server(true, false, true, false),
        "the endpoint connected or failed in a way startup cannot repair"
    );
    assert!(!should_start_unix_server(true, true, false, false), "no codex binary");
    assert!(
        !should_start_unix_server(true, true, true, true),
        "an owned child is already binding the endpoint"
    );
}

#[test]
fn direct_app_server_command_uses_the_requested_listener() {
    assert_eq!(
        app_server_args("unix:///tmp/codex.sock"),
        ["app-server", "--listen", "unix:///tmp/codex.sock"]
    );
}

#[test]
fn next_backoff_paces_every_failure_path() {
    let mut b = BACKOFF_FLOOR;
    b = next_backoff(false, b);
    assert_eq!(b, BACKOFF_FLOOR * 2);
    for _ in 0..10 {
        b = next_backoff(false, b);
        assert!(b >= BACKOFF_FLOOR, "no zero-sleep path");
    }
    assert_eq!(b, BACKOFF_CEIL, "capped at the ceiling");
    assert_eq!(next_backoff(true, b), BACKOFF_FLOOR);
}

#[test]
fn launch_waiter_uses_short_retries_during_background_backoff() {
    assert_eq!(
        retry_delay(BACKOFF_CEIL, true),
        LAUNCH_RETRY_DELAY,
        "a synchronous launcher must not inherit the background ceiling"
    );
    assert_eq!(
        retry_delay(BACKOFF_CEIL, false),
        BACKOFF_CEIL,
        "background retries retain their capped backoff"
    );
}

#[test]
fn auto_start_bypasses_the_no_session_bootstrap_park() {
    assert!(should_park_supervisor(true, true, false, false));
    assert!(
        !should_park_supervisor(true, true, false, true),
        "auto-start must create the server before a remote session can fire its first hook"
    );
    assert!(should_park_supervisor(false, true, true, true));
    assert!(should_park_supervisor(true, false, true, true));
}

/// Where a binary is found among the candidates, given which files there are.
fn found(candidates: &Vec<String>, files: &[&str]) -> Option<String> {
    let is_file: Vec<bool> = candidates.iter().map(|c| files.contains(&c.as_str())).collect();
    resolve_codex_bin(candidates, &is_file)
}

#[test]
fn resolve_codex_bin_managed_install_honors_codex_home() {
    let home = codex_home(Some("/srv/codex"), "/home/u/.codex");
    let candidates = bin_candidates(
        "ds-test-codex-b1n",
        false,
        false,
        &vec!["/usr/local/sbin".to_string()],
        "/home/u",
        &home,
        &None,
    );
    assert_eq!(candidates[0], "/usr/local/sbin/ds-test-codex-b1n", "the path comes first");
    let managed = "/srv/codex/packages/standalone/current/ds-test-codex-b1n";
    assert_eq!(found(&candidates, &[managed]).as_deref(), Some(managed));
    assert_eq!(found(&candidates, &[]), None);
    assert_eq!(
        found(&candidates, &[managed, "/usr/local/sbin/ds-test-codex-b1n"]).as_deref(),
        Some("/usr/local/sbin/ds-test-codex-b1n")
    );
}

#[test]
fn an_absolute_binary_is_taken_as_it_is() {
    let candidates = bin_candidates(
        "/opt/codex",
        true,
        false,
        &vec!["/usr/bin".to_string()],
        "/home/u",
        "/home/u/.codex",
        &None,
    );
    assert_eq!(candidates, ["/opt/codex"]);
}

#[test]
fn resolve_codex_bin_finds_the_native_npm_payload_on_windows() {
    let candidates = bin_candidates(
        "codex",
        false,
        false,
        &Vec::new(),
        "C:/Users/u",
        "C:/Users/u/.codex",
        &Some(WindowsLayout { arm: false, roaming: Some("C:/Users/u/AppData/Roaming".to_string()) }),
    );
    let bin = "C:/Users/u/AppData/Roaming/npm/node_modules/@openai/codex/node_modules/\
               @openai/codex-win32-x64/vendor/x86_64-pc-windows-msvc/bin/codex.exe";
    assert_eq!(found(&candidates, &[bin]).as_deref(), Some(bin));
}

#[test]
fn launcher_binary_wins_when_engine_discovery_cannot_find_codex() {
    let mut reg = SessionRegistry::new();
    let seen = match reg.ensure_remote("/home/u/launcher-only-codex") {
        Ensure::Waiting { seen_error } => seen_error,
        other => panic!("unexpected {other:?}"),
    };
    assert!(reg.launch_requested());
    assert_eq!(
        resolve_launch_bin(reg.launcher_bin(), None).as_deref(),
        Some("/home/u/launcher-only-codex")
    );
    reg.launch_failed("test complete".to_string());
    assert_eq!(
        reg.launch_outcome(seen, false),
        Some(Err("test complete".to_string()))
    );
}

#[test]
fn unix_start_kind_uses_owned_server_for_homebrew_and_managed_daemon_for_standalone() {
    let standalone = standalone_path("/srv/codex");
    assert_eq!(standalone, "/srv/codex/packages/standalone/current/codex");
    assert_eq!(
        unix_start_kind(&standalone, "/srv/codex", Some(&standalone), Some(&standalone)),
        UnixStartKind::ManagedDaemon
    );
    assert_eq!(
        unix_start_kind(
            "/srv/codex/configured-codex",
            "/srv/codex",
            Some(&standalone),
            Some(&standalone)
        ),
        UnixStartKind::ManagedDaemon,
        "a configured symlink to the standalone payload remains managed"
    );
    let homebrew = "/srv/codex/homebrew/bin/codex";
    assert_eq!(
        unix_start_kind(homebrew, "/srv/codex", Some(homebrew), Some(&standalone)),
        UnixStartKind::OwnedServer
    );
}

#[test]
fn sweep_removes_only_old_narrate_display_files() {
    let ancient = Some(8 * 24 * 3600 * 1000);
    assert!(is_orphaned_state("narrate-display-old.json", ancient));
    assert!(is_orphaned_state("narrate-display-old.lock", ancient));
    assert!(!is_orphaned_state("narrate-display-fresh.json", Some(1000)));
    assert!(!is_orphaned_state("stats.toml", ancient));
    assert!(!is_orphaned_state("narrate-display-old.json", None));
    assert!(!is_orphaned_state("narrate-display-old.json", Some(ORPHAN_MAX_AGE)));
}

#[test]
fn registry_nudges_wake_snapshot_and_prune() {
    let mut reg = SessionRegistry::new();
    let (sessions, epoch0) = reg.snapshot();
    assert!(sessions.is_empty());
    reg.nudge("s1", 10);
    reg.nudge("", 10);
    reg.nudge("   ", 10);
    let (sessions, epoch1) = reg.snapshot();
    assert_eq!(sessions, vec!["s1".to_string()]);
    assert!(epoch1 > epoch0, "a nudge bumps the epoch");
    assert_eq!(reg.wait_change(epoch0, false), Some(epoch1));
    assert_eq!(reg.wait_change(epoch1, false), None, "nothing has moved");
    assert_eq!(reg.wait_change(epoch1, true), Some(epoch1), "the time is up");
    reg.nudge("s1", 11);
    let (_, epoch2) = reg.snapshot();
    assert!(epoch2 > epoch1);
    reg.prune_older_than(12, 0);
    assert!(reg.snapshot().0.is_empty());
    reg.remove("s1");
}

#[test]
fn launcher_waits_for_an_attached_endpoint_and_reuses_it() {
    let mut reg = SessionRegistry::new();
    let seen = match reg.ensure_remote("/launcher/codex") {
        Ensure::Waiting { seen_error } => seen_error,
        other => panic!("unexpected {other:?}"),
    };
    assert!(reg.launch_requested(), "the waiting launcher must wake the supervisor");
    assert_eq!(reg.launcher_bin().as_deref(), Some("/launcher/codex"));
    assert_eq!(reg.launch_outcome(seen, false), None);
    reg.launch_ready("ws://127.0.0.1:4500".to_string());
    assert_eq!(
        reg.launch_outcome(seen, false),
        Some(Ok("ws://127.0.0.1:4500".to_string()))
    );
    reg.launch_done();
    assert!(!reg.launch_requested());
    assert_eq!(
        reg.ensure_remote("/other/codex"),
        Ensure::Ready("ws://127.0.0.1:4500".to_string()),
        "a second launcher reuses the initialized observer"
    );
    assert_eq!(
        reg.launcher_bin().as_deref(),
        Some("/other/codex"),
        "the latest resolved binary must remain available for reconnects"
    );
    reg.launch_detached();
    match reg.ensure_remote("/launcher/codex") {
        Ensure::Waiting { seen_error } => assert_eq!(
            reg.launch_outcome(seen_error, true),
            Some(Err("timed out waiting for the Codex app-server".to_string()))
        ),
        other => panic!("unexpected {other:?}"),
    }
}

#[test]
fn launcher_receives_a_supervisor_failure_without_waiting_for_timeout() {
    let mut reg = SessionRegistry::new();
    let seen = match reg.ensure_remote("/launcher/codex") {
        Ensure::Waiting { seen_error } => seen_error,
        other => panic!("unexpected {other:?}"),
    };
    reg.launch_failed("codex binary missing".to_string());
    assert_eq!(
        reg.launch_outcome(seen, false),
        Some(Err("codex binary missing".to_string()))
    );
}

#[test]
fn launcher_interrupts_an_in_flight_background_retry_wait() {
    let mut reg = SessionRegistry::new();
    assert_eq!(pace(&reg, true, 0, 5000, false), Some(100));
    let _ = reg.ensure_remote("/launcher/codex");
    assert_eq!(pace(&reg, true, 50, 5000, false), None, "a new launcher ends the pause");
    assert_eq!(
        pace(&reg, true, 50, 5000, true),
        Some(100),
        "one that waited before it does not"
    );
}

#[test]
fn session_nudge_does_not_interrupt_retry_backoff() {
    let mut reg = SessionRegistry::new();
    reg.nudge("unrelated-session", 25);
    assert_eq!(pace(&reg, true, 25, 150, false), Some(100));
    assert_eq!(pace(&reg, true, 125, 150, false), Some(25));
    assert_eq!(pace(&reg, true, 150, 150, false), None);
}

#[test]
fn retry_wait_still_observes_shutdown() {
    let reg = SessionRegistry::new();
    assert_eq!(pace(&reg, false, 25, 5000, false), None);
}

// ── The supervisor ───────────────────────────────────────────────────────────

fn conditions() -> Conditions {
    Conditions {
        stream: true,
        daemon: false,
        codex_present: true,
        have_sessions: true,
        launch_requested: false,
    }
}

#[test]
fn a_launcher_is_refused_with_the_reason() {
    let mut s = Supervisor::new();
    let mut c = conditions();
    c.launch_requested = true;
    c.stream = false;
    assert_eq!(s.gate(c), GateStep::Refuse(Refusal::StreamOff));
    c.stream = true;
    c.codex_present = false;
    assert_eq!(s.gate(c), GateStep::Refuse(Refusal::NotInstalled));
    assert_eq!(
        refusal_message(Refusal::NotInstalled),
        "Codex is not installed or its config directory is missing"
    );
    assert_eq!(
        missing_bin_message("co\"dex"),
        "Codex executable \"co\\\"dex\" was not found; set codex_bin to its full path"
    );
}

#[test]
fn a_supervisor_without_sessions_parks() {
    let mut s = Supervisor::new();
    let mut c = conditions();
    assert_eq!(s.gate(c), GateStep::Attach { stopped: false, force_start: false });
    c.have_sessions = false;
    assert_eq!(s.gate(c), GateStep::Park { stopped: false });
    c.daemon = true;
    assert_eq!(s.gate(c), GateStep::Attach { stopped: false, force_start: true });
}

#[test]
fn a_server_is_started_once_in_a_while() {
    let mut s = Supervisor::new();
    let mut f = ConnectFailure {
        force_start: true,
        launch_requested: false,
        startable: true,
        bin_found: true,
        now: 1000,
    };
    assert!(s.unix_connect_failed(f).start);
    f.now = 1000 + SERVER_START_MIN_GAP - 1;
    assert!(!s.unix_connect_failed(f).start, "too soon");
    f.now = 1000 + SERVER_START_MIN_GAP;
    assert!(s.unix_connect_failed(f).start);
    f.now = 1_000_000;
    f.bin_found = false;
    assert!(s.unix_connect_failed(f).warn, "a missing binary is reported");
    assert!(!s.unix_connect_failed(f).warn, "and once only");
}

#[test]
fn no_server_is_started_on_another_machine() {
    let mut s = Supervisor::new();
    let plan = s.tcp_connect_failed(ConnectFailure {
        force_start: true,
        launch_requested: false,
        startable: false,
        bin_found: true,
        now: 1000,
    });
    assert!(plan.refuse_remote && !plan.start);
}

#[test]
fn an_owned_server_that_exits_is_let_go() {
    let mut s = Supervisor::new();
    s.server_started("unix:/s".to_string());
    assert_eq!(s.owned().as_deref(), Some("unix:/s"));
    assert_eq!(s.probed(&OwnedProbe::Running, false), None);
    assert_eq!(s.owned().as_deref(), Some("unix:/s"));
    assert!(s.probed(&OwnedProbe::Exited("exit status: 1".to_string()), true).is_some());
    assert_eq!(s.owned(), None);
    let step = s.on_endpoint(None, true);
    assert!(step.park && step.refuse && !step.stopped);
}

#[test]
fn lost_connections_are_paced() {
    let mut s = Supervisor::new();
    assert_eq!(
        s.settle(Outcome::Detached(Detach::Shutdown), 0, false),
        After::Stop
    );
    assert_eq!(
        s.settle(Outcome::Detached(Detach::Reconfigure), 0, false),
        After::Again
    );
    let first = s.settle(Outcome::Lost, STABLE_ATTACH, false);
    assert_eq!(first, After::Pause(BACKOFF_FLOOR));
    let second = s.settle(Outcome::Lost, 10, false);
    assert_eq!(second, After::Pause(2 * BACKOFF_FLOOR));
    assert_eq!(s.settle(Outcome::Unattached, 10, true), After::Pause(LAUNCH_RETRY_DELAY));
}

#[test]
fn a_wait_never_goes_back_behind_what_was_seen() {
    let mut s = Supervisor::new();
    assert_eq!(s.wait_from(4), 4);
    s.woke(9);
    assert_eq!(s.wait_from(4), 9);
    assert_eq!(s.wait_from(12), 12);
}

#[test]
fn a_waiting_launcher_is_never_parked() {
    let mut s = Supervisor::new();
    let mut c = Conditions {
        stream: true,
        daemon: false,
        codex_present: true,
        have_sessions: false,
        launch_requested: false,
    };
    assert_eq!(s.gate(c), GateStep::Park { stopped: false });
    c.launch_requested = true;
    assert_eq!(s.gate(c), GateStep::Attach { stopped: false, force_start: true });
}

#[test]
fn an_owned_server_ends_with_its_endpoint() {
    let mut s = Supervisor::new();
    s.server_started("unix:/s".to_string());
    assert!(!s.on_endpoint(Some("unix:/s"), false).stopped);
    assert_eq!(s.owned().as_deref(), Some("unix:/s"));
    assert!(s.on_endpoint(Some("tcp:127.0.0.1:4500"), false).stopped);
    assert_eq!(s.owned(), None);
}

#[test]
fn paths_are_compared_name_by_name() {
    let managed = |bin: &str| {
        unix_start_kind(bin, "/srv/codex", None, None) == UnixStartKind::ManagedDaemon
    };
    assert!(managed("/srv//codex/./packages/standalone/current/codex/"));
    assert!(!managed("srv/codex/packages/standalone/current/codex"));
    assert!(!managed("/srv/codex/packages/../packages/standalone/current/codex"));
    assert!(same_path(".", "./"));
    assert!(same_path("./a/.", "./a"));
    assert!(!same_path("./a", "a"));
    assert!(!same_path(".a", "./a"));
    assert!(!same_path("", "/"));
    assert!(same_path("/./a", "/a"));
}
