//! What requests to the engine lead to.

use dontspeakd::assoc::AssocMap;
use dontspeakd::grok_stream::registry::SessionRegistry as GrokSessions;
use dontspeakd::ipc::{
    bad_request_log_line, capture_timeout, earcon_session, enroll_reply, expire_ui_lease,
    log_client, log_line, name_segments, narration_log_line, plain_reply, plan, remote_reply,
    run_bounded_capture, should_cancel_on_submit, speak_reply, speak_tts_args, submit_actions,
    ui_lease_until, Action, Reply, Request, SegmentLabel, WiredAgent,
};

fn some(s: &str) -> Option<String> {
    Some(s.to_string())
}

#[test]
fn should_cancel_on_submit_decision_table() {
    assert!(!should_cancel_on_submit(true, true));
    assert!(!should_cancel_on_submit(true, false));
    assert!(should_cancel_on_submit(false, true));
    assert!(!should_cancel_on_submit(false, false));
}

#[test]
fn sessionless_earcon_inherits_active_session() {
    assert_eq!(earcon_session(Some("active"), None), some("active"));
    assert_eq!(
        earcon_session(Some("active"), some("explicit")),
        some("explicit"),
        "a session sent by a current hook must remain authoritative"
    );
    assert_eq!(earcon_session(None, None), None);
}

#[test]
fn mark_active_synthetic_does_not_claim_active_or_cancel_speech() {
    let req = Request::MarkActive {
        session: some("a"),
        queue_session: some("a"),
        synthetic: true,
        source: Some(WiredAgent::ClaudeCode),
    };
    assert_eq!(
        plan(&req, Some("other")),
        vec![
            Action::NudgeCodex("a".to_string()),
            Action::Link {
                logical: some("a"),
                queue: some("a"),
                source: Some(WiredAgent::ClaudeCode),
            },
            Action::Done,
        ],
        "a synthetic continuation neither steals the active window nor cancels speech"
    );
}

#[test]
fn mark_active_genuine_submit_still_claims_active_and_cancels_current_scope() {
    let req = Request::MarkActive {
        session: some("logical-a"),
        queue_session: some("window-a"),
        synthetic: false,
        source: Some(WiredAgent::ClaudeCode),
    };
    assert_eq!(
        plan(&req, None),
        vec![
            Action::NudgeCodex("logical-a".to_string()),
            Action::Link {
                logical: some("logical-a"),
                queue: some("window-a"),
                source: Some(WiredAgent::ClaudeCode),
            },
            Action::SetActive(some("window-a")),
            Action::Submitted(some("window-a")),
            Action::Done,
        ]
    );
    assert_eq!(
        submit_actions(false, true, false, &some("window-a")),
        vec![Action::ClearSession(some("window-a"))]
    );
    assert_eq!(
        submit_actions(false, true, true, &some("window-a")),
        vec![Action::ClearSession(some("window-a")), Action::CancelOthers(some("window-a"))]
    );
    assert!(submit_actions(true, true, true, &some("window-a")).is_empty());
}

#[test]
fn mark_active_grok_nudges_grok_registry_only() {
    let registered = |session: &str, window: &str, source: WiredAgent| {
        let mark = Request::MarkActive {
            session: some(session),
            queue_session: some(window),
            synthetic: true,
            source: Some(source),
        };
        let mut grok_sessions = GrokSessions::new();
        for action in plan(&mark, None) {
            if let Action::NudgeGrok(s) = action {
                grok_sessions.nudge(&s, 0);
            }
        }
        grok_sessions.contains(session)
    };
    assert!(
        registered("g1", "window-g", WiredAgent::Grok),
        "Grok MarkActive must register for updates.jsonl tail"
    );
    assert!(
        !registered("c1", "window-c", WiredAgent::ClaudeCode),
        "non-Grok clients must not enter the Grok registry"
    );
}

#[test]
fn run_bounded_capture_refuses_while_dictation_is_active() {
    let mut capture_busy = false;
    let result: Result<u32, String> =
        run_bounded_capture(true, &mut capture_busy, "diarize", 5, |_secs: u64| Ok(42));
    assert_eq!(
        result,
        Err("diarize: dictation is active; try again after it ends".to_string())
    );
}

#[test]
fn run_bounded_capture_clamps_seconds_to_1_through_60() {
    let mut capture_busy = false;
    let mut seen: u64 = 0;
    assert_eq!(
        run_bounded_capture(false, &mut capture_busy, "enroll", 999, |secs: u64| {
            seen = secs;
            Ok(())
        }),
        Ok(())
    );
    assert_eq!(seen, 60, "seconds must clamp to the 60s ceiling");

    assert_eq!(
        run_bounded_capture(false, &mut capture_busy, "enroll", 0, |secs: u64| {
            seen = secs;
            Ok(())
        }),
        Ok(())
    );
    assert_eq!(seen, 1, "seconds must clamp to the 1s floor");
    assert!(!capture_busy, "the microphone is free again");
}

#[test]
fn run_bounded_capture_propagates_the_inner_error_with_the_op_label() {
    let mut capture_busy = false;
    let result: Result<(), String> =
        run_bounded_capture(false, &mut capture_busy, "diarize", 5, |_secs: u64| {
            Err("boom".to_string())
        });
    assert_eq!(result, Err("diarize: boom".to_string()));
}

#[test]
fn one_recording_at_a_time() {
    let mut capture_busy = true;
    let result: Result<(), String> =
        run_bounded_capture(false, &mut capture_busy, "enroll", 5, |_secs: u64| Ok(()));
    assert_eq!(
        result,
        Err("enroll: another diarize or enroll capture is already active".to_string())
    );
    assert!(capture_busy, "the other recording goes on");
    assert_eq!(capture_timeout(60), 90);
}

fn label(speaker: &str) -> SegmentLabel {
    SegmentLabel { speaker: speaker.to_string(), name: None }
}

#[test]
fn diarize_named_segments_relabels_matches_and_leaves_the_rest_unlabeled() {
    let mut names: AssocMap<String, String> = AssocMap::new();
    names.insert("1".to_string(), "Alex".to_string());
    let out = name_segments(&vec![label("1"), label("2")], &names);
    assert_eq!(out, vec![some("Alex"), None]);
}

#[test]
fn diarize_named_segments_passes_through_unnamed_with_no_enrolled_speakers() {
    let names: AssocMap<String, String> = AssocMap::new();
    let kept = SegmentLabel { speaker: "2".to_string(), name: some("known") };
    assert_eq!(name_segments(&vec![label("1"), kept], &names), vec![None, some("known")]);
}

#[test]
fn diarize_named_segments_tolerates_empty_segments_and_no_speakers_map() {
    let names: AssocMap<String, String> = AssocMap::new();
    assert!(name_segments(&Vec::new(), &names).is_empty());
}

#[test]
fn sessions_are_greeted_stopped_and_ended() {
    let greet = Request::GreetSession {
        session: some("s"),
        queue_session: some("w"),
        source: Some(WiredAgent::Grok),
    };
    assert_eq!(
        plan(&greet, None),
        vec![
            Action::NudgeCodex("s".to_string()),
            Action::NudgeGrok("s".to_string()),
            Action::Link {
                logical: some("s"),
                queue: some("w"),
                source: Some(WiredAgent::Grok),
            },
            Action::Greet { queue: some("w"), source: Some(WiredAgent::Grok) },
            Action::Done,
        ]
    );
    assert_eq!(
        plan(&Request::Stop { session: "w".to_string(), source: None }, None),
        vec![
            Action::ClearSession(some("w")),
            Action::ClearSession(some("grok-stop:w")),
            Action::Done,
        ]
    );
    let end = Request::SessionEnd {
        session: some("s"),
        queue_session: None,
        source: Some(WiredAgent::Grok),
    };
    assert_eq!(
        plan(&end, None),
        vec![
            Action::ForgetNarration("s".to_string()),
            Action::ForgetGrok("s".to_string()),
            Action::ClearAll,
            Action::Unlink { logical: some("s"), queue: None },
            Action::Done,
        ]
    );
}

#[test]
fn times_and_names_are_brought_into_bounds() {
    let lease = |ttl_ms: u64| Request::SetDictationUiReceiver { receiver_id: "r".to_string(), ttl_ms };
    assert_eq!(plan(&lease(1), None)[0], Action::UiReceiver { for_ms: 500 });
    assert_eq!(plan(&lease(70_000), None)[0], Action::UiReceiver { for_ms: 60_000 });
    assert_eq!(
        plan(&Request::WaitModelStatus { since: 3, timeout_ms: 0 }, None),
        vec![Action::WaitStatus { since: 3, timeout_ms: 1 }]
    );
    let enroll = |name: &str| Request::Enroll { name: name.to_string(), seconds: 5 };
    assert_eq!(
        plan(&enroll("  "), None),
        vec![Action::Error("enroll: name must not be empty".to_string())]
    );
    assert_eq!(
        plan(&enroll(" Alex "), None),
        vec![Action::Enroll { name: "Alex".to_string(), seconds: 5 }]
    );
}

#[test]
fn requests_are_logged_without_what_is_said() {
    assert_eq!(
        log_line(
            &Request::Speak {
                text: "secret".to_string(),
                tts_args: None,
                session: "s".to_string(),
                source: None,
            },
            None,
        ),
        some("speak session=s chars=6")
    );
    assert_eq!(
        log_line(
            &Request::Earcon { event: "stop".to_string(), session: None, source: None },
            Some("w"),
        ),
        some("earcon event=stop session=w")
    );
    let mark = Request::MarkActive {
        session: None,
        queue_session: some("w"),
        synthetic: false,
        source: None,
    };
    assert_eq!(
        log_line(&mark, None),
        some("mark_active session=- queue_session=w synthetic=false")
    );
    assert_eq!(log_line(&Request::Ping, None), None);
}

#[test]
fn answers_follow_what_came_of_a_request() {
    assert_eq!(speak_reply(&Ok(Some(7))), Reply::Utterance(7));
    assert_eq!(speak_reply(&Ok(None)), Reply::Done);
    assert_eq!(speak_reply(&Err("full".to_string())), Reply::Error("speak: full".to_string()));
    assert_eq!(plain_reply("earcon", &Ok(())), Reply::Done);
    assert_eq!(
        plain_reply("earcon", &Err("x".to_string())),
        Reply::Error("earcon: x".to_string())
    );
    assert_eq!(
        remote_reply(Ok("ws://x".to_string())),
        Reply::CodexStreamReady("ws://x".to_string())
    );
    assert_eq!(remote_reply(Err("no".to_string())), Reply::Error("no".to_string()));
    assert_eq!(enroll_reply("Alex".to_string(), &Ok(())), Reply::Enrolled("Alex".to_string()));
    assert_eq!(
        enroll_reply("Alex".to_string(), &Err("disk".to_string())),
        Reply::Error("enroll: save failed: disk".to_string())
    );
}

#[test]
fn a_receiver_is_believed_for_a_time() {
    let mut lease = Some(ui_lease_until(100, 500));
    assert!(!expire_ui_lease(&mut lease, 599));
    assert!(expire_ui_lease(&mut lease, 600));
    assert_eq!(lease, None);
    assert!(!expire_ui_lease(&mut lease, 601));
}

#[test]
fn arguments_that_cannot_be_used_are_refused() {
    assert_eq!(speak_tts_args::<u8>(None), Ok(None));
    assert_eq!(speak_tts_args(Some(Ok(7u8))), Ok(Some(7)));
    assert_eq!(
        speak_tts_args::<u8>(Some(Err("cannot route jf_alpha".to_string()))),
        Err("invalid tts_args: cannot route jf_alpha".to_string())
    );
}

#[test]
fn the_voice_is_told_the_client() {
    let speak = Request::Speak {
        text: "hi".to_string(),
        tts_args: None,
        session: "s".to_string(),
        source: Some(WiredAgent::Codex),
    };
    assert_eq!(log_client(&speak), Some(WiredAgent::Codex));
    assert_eq!(
        plan(&speak, None),
        vec![Action::Speak {
            text: "hi".to_string(),
            session: "s".to_string(),
            source: Some(WiredAgent::Codex),
        }]
    );
    let narrate = Request::SpeakNarration {
        text: "line".to_string(),
        detection_text: some("more"),
        session: some("s"),
        narration_id: some("n1"),
        source: Some(WiredAgent::Kimi),
    };
    assert_eq!(
        plan(&narrate, None),
        vec![Action::Narrate {
            text: "line".to_string(),
            detection_text: some("more"),
            session: some("s"),
            narration_id: some("n1"),
            source: Some(WiredAgent::Kimi),
        }]
    );
    assert_eq!(log_line(&narrate, None), None);
    assert_eq!(log_client(&Request::Ping), None);
}

#[test]
fn a_rejected_narration_is_logged() {
    assert_eq!(narration_log_line(&Ok(())), None);
    assert_eq!(narration_log_line(&Err("full".to_string())), some("narration rejected: full"));
    assert_eq!(
        bad_request_log_line("bad request"),
        "bad request — caller and engine are out of sync; reinstall the CLI and restart the app"
    );
}
