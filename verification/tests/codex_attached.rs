//! One attached connection, against a scripted app-server.

use dontspeakd::coalesce::{BatchPayload, StreamBatch};
use dontspeakd::codex_stream::attached::{should_detach, Attached, Detach, Reply, Step, Tunables};
use dontspeakd::codex_stream::proto::parse_incoming;
use dontspeakd::codex_stream::registry::SessionRegistry;
use serde_json::Value;

fn tunables() -> Tunables {
    Tunables {
        cfg_refresh: 100,
        resolve_retry: 100,
        resolve_tries: 3,
        relist: 250,
        idle_ttl: 3_600_000,
        flush_age: 50,
        request_timeout: 5000,
    }
}

fn sessions(names: &[&str]) -> Vec<String> {
    names.iter().map(|s| s.to_string()).collect()
}

fn request(raw: &str) -> Value {
    serde_json::from_str(raw).expect("a request is JSON")
}

/// Lets the connection ask for the list, and gives the request's id.
fn ask(a: &mut Attached, now: u64, tun: &Tunables) -> i64 {
    let raw = a.list_request(now, tun).expect("a list is due");
    let v = request(&raw);
    assert_eq!(v["method"], "thread/loaded/list");
    v["id"].as_i64().expect("a request has an id")
}

/// The loaded list as the server's reply; what it leads to.
fn loaded(a: &mut Attached, id: i64, threads: &[&str], now: u64, tun: &Tunables) -> (Vec<String>, Vec<String>) {
    let data = serde_json::to_string(threads).unwrap();
    let raw = format!("{{\"id\":{id},\"result\":{{\"data\":{data}}}}}");
    match a.on_incoming(parse_incoming(&raw), now, tun) {
        Step::Reply(Reply::Listed { evicted, resumes }) => (evicted, resumes),
        other => panic!("unexpected {other:?}"),
    }
}

/// The server accepts a resume; gives the thread that is followed then.
fn accept(a: &mut Attached, resume: &str, now: u64, tun: &Tunables) -> String {
    let v = request(resume);
    assert_eq!(v["method"], "thread/resume");
    let id = v["id"].as_i64().unwrap();
    let tid = v["params"]["threadId"].as_str().unwrap().to_string();
    let raw = format!(
        "{{\"id\":{id},\"result\":{{\"thread\":{{\"id\":\"{tid}\",\"sessionId\":\"{tid}\"}}}}}}"
    );
    match a.on_incoming(parse_incoming(&raw), now, tun) {
        Step::Reply(Reply::Attached { thread_id, session, reported }) => {
            assert_eq!(session, thread_id);
            assert_eq!(reported.as_deref(), Some(tid.as_str()));
            thread_id
        }
        other => panic!("unexpected {other:?}"),
    }
}

fn delta(thread: &str, item: &str, text: &str) -> String {
    let text = serde_json::to_string(text).unwrap();
    format!(
        "{{\"method\":\"item/agentMessage/delta\",\"params\":{{\"threadId\":\"{thread}\",\
         \"turnId\":\"turn_1\",\"itemId\":\"{item}\",\"delta\":{text}}}}}"
    )
}

fn completed(thread: &str, item: &str, text: &str) -> String {
    let text = serde_json::to_string(text).unwrap();
    format!(
        "{{\"method\":\"item/completed\",\"params\":{{\"threadId\":\"{thread}\",\
         \"turnId\":\"turn_1\",\"completedAtMs\":1,\
         \"item\":{{\"type\":\"agentMessage\",\"id\":\"{item}\",\"text\":{text}}}}}}}"
    )
}

/// What a frame hands on.
fn batches(a: &mut Attached, raw: &str, now: u64, tun: &Tunables) -> Vec<(String, StreamBatch)> {
    match a.on_incoming(parse_incoming(raw), now, tun) {
        Step::Batches(b) => b,
        Step::Nothing => Vec::new(),
        other => panic!("unexpected {other:?}"),
    }
}

#[test]
fn attach_streams_narration_in_order() {
    let tun = tunables();
    let mut a = Attached::new(&sessions(&["sess-1"]), 1, 0);
    let id = ask(&mut a, 0, &tun);
    let (evicted, resumes) = loaded(&mut a, id, &["sess-1"], 1, &tun);
    assert!(evicted.is_empty());
    assert_eq!(resumes.len(), 1);
    assert_eq!(accept(&mut a, &resumes[0], 2, &tun), "sess-1");
    assert_eq!(a.sessions(), ["sess-1"]);

    let first = batches(&mut a, &delta("sess-1", "item_1", "> First point.\n"), 3, &tun);
    assert_eq!(first.len(), 1);
    assert_eq!(first[0].0, "sess-1");
    assert_eq!(
        first[0].1.payload,
        BatchPayload::Delta { index: Some(0), text: "> First point.\n".into() }
    );
    let last = batches(&mut a, &completed("sess-1", "item_1", "> First point.\n\nDetail."), 4, &tun);
    assert_eq!(last.len(), 1);
    assert!(last[0].1.is_final);
}

#[test]
fn loaded_list_timeout_retries_on_the_same_connection() {
    let tun = Tunables { request_timeout: 100, ..tunables() };
    let mut a = Attached::new(&sessions(&["sess-1"]), 1, 0);
    let first = ask(&mut a, 0, &tun);
    assert!(a.list_request(50, &tun).is_none(), "one list at a time");
    a.expire(100, &tun);
    let retry = ask(&mut a, 200, &tun);
    assert!(retry > first);
    let (_, resumes) = loaded(&mut a, retry, &["sess-1"], 201, &tun);
    assert_eq!(accept(&mut a, &resumes[0], 202, &tun), "sess-1");
    assert_eq!(
        batches(&mut a, &completed("sess-1", "item-1", "> Recovered.\n\nBody."), 203, &tun).len(),
        1
    );
}

#[test]
fn resume_timeout_retries_on_the_same_connection() {
    let tun = Tunables { request_timeout: 100, ..tunables() };
    let mut a = Attached::new(&sessions(&["sess-1"]), 1, 0);
    let id = ask(&mut a, 0, &tun);
    let (_, resumes) = loaded(&mut a, id, &["sess-1"], 1, &tun);
    assert_eq!(resumes.len(), 1);
    a.expire(101, &tun);
    let retry = ask(&mut a, 301, &tun);
    let (_, again) = loaded(&mut a, retry, &["sess-1"], 302, &tun);
    assert_eq!(again.len(), 1, "one fresh resume");
    assert_eq!(request(&again[0])["method"], "thread/resume");
    assert_eq!(accept(&mut a, &again[0], 303, &tun), "sess-1");
    let said = batches(&mut a, &completed("sess-1", "item-1", "> Recovered.\n\nBody."), 304, &tun);
    assert_eq!(said.len(), 1);
    assert_eq!(said[0].0, "sess-1");
    assert_eq!(
        said[0].1.payload,
        BatchPayload::Cumulative { text: "> Recovered.\n\nBody.".into() }
    );
}

#[test]
fn foreign_threads_are_never_resumed_or_narrated() {
    let tun = tunables();
    let mut a = Attached::new(&sessions(&["sess-mine"]), 1, 0);
    let id = ask(&mut a, 0, &tun);
    let (_, resumes) = loaded(&mut a, id, &["thr-foreign"], 1, &tun);
    assert!(resumes.is_empty(), "no resume for a foreign thread");
    assert!(
        batches(&mut a, &completed("thr-foreign", "item_9", "> Never spoken."), 2, &tun).is_empty(),
        "foreign-thread notifications never narrate"
    );
    let again = ask(&mut a, 200, &tun);
    let (_, resumes) = loaded(&mut a, again, &["thr-foreign"], 201, &tun);
    assert!(resumes.is_empty());
    assert!(a.sessions().is_empty(), "nothing is followed that was never resumed");
}

#[test]
fn thread_unload_evicts_the_session_and_clears_its_state() {
    let tun = tunables();
    let mut a = Attached::new(&sessions(&["sess-1"]), 1, 0);
    let id = ask(&mut a, 0, &tun);
    let (_, resumes) = loaded(&mut a, id, &["sess-1"], 1, &tun);
    let _ = accept(&mut a, &resumes[0], 2, &tun);
    let mut registry = SessionRegistry::new();
    registry.nudge("sess-1", 0);
    let said = batches(&mut a, &completed("sess-1", "item_1", "> Hi.\n\nBody."), 3, &tun);
    assert_eq!(said.len(), 1, "handed on while loaded");
    let relist = ask(&mut a, 300, &tun);
    let (evicted, resumes) = loaded(&mut a, relist, &[], 301, &tun);
    assert_eq!(evicted, ["sess-1"]);
    assert!(resumes.is_empty());
    assert!(a.sessions().is_empty());
    for session in &evicted {
        registry.remove(session);
    }
    assert!(registry.snapshot().0.is_empty(), "evicted from the session registry too");
    assert!(
        batches(&mut a, &completed("sess-1", "item_2", "Late."), 302, &tun).is_empty(),
        "nothing is known of the session any more"
    );
}

#[test]
fn list_error_response_never_evicts() {
    let tun = tunables();
    let mut a = Attached::new(&sessions(&["sess-1"]), 1, 0);
    let id = ask(&mut a, 0, &tun);
    let (_, resumes) = loaded(&mut a, id, &["sess-1"], 1, &tun);
    let _ = accept(&mut a, &resumes[0], 2, &tun);
    let mut registry = SessionRegistry::new();
    registry.nudge("sess-1", 0);
    let said = batches(&mut a, &completed("sess-1", "item_1", "> Hi.\n\nBody."), 3, &tun);
    assert_eq!(said.len(), 1, "handed on exactly once");
    assert_eq!(said[0].0, "sess-1");
    assert_eq!(said[0].1.payload, BatchPayload::Cumulative { text: "> Hi.\n\nBody.".into() });
    for now in [300, 600] {
        let relist = ask(&mut a, now, &tun);
        let raw = format!("{{\"id\":{relist},\"error\":{{\"code\":-32603,\"message\":\"boom\"}}}}");
        assert_eq!(
            a.on_incoming(parse_incoming(&raw), now + 1, &tun),
            Step::Reply(Reply::ListFailed)
        );
    }
    assert_eq!(a.sessions(), ["sess-1"], "an errored list keeps the session");
    assert_eq!(
        batches(&mut a, &delta("sess-1", "item_2", "More.\n"), 602, &tun).len(),
        1,
        "an errored list keeps what is known of the session"
    );
    assert_eq!(
        registry.snapshot().0,
        ["sess-1"],
        "an errored list keeps the session registered"
    );
}

#[test]
fn run_attached_stands_down_when_gated_off() {
    assert_eq!(should_detach(true, false, None, None), Some(Detach::Disabled));
    assert_eq!(should_detach(false, true, None, None), Some(Detach::Disabled));
    assert_eq!(should_detach(true, true, None, None), None);
    let tun = tunables();
    let mut a = Attached::new(&sessions(&["sess-1"]), 1, 0);
    let id = ask(&mut a, 0, &tun);
    let (_, resumes) = loaded(&mut a, id, &["sess-1"], 1, &tun);
    let _ = accept(&mut a, &resumes[0], 2, &tun);
    let goodbyes = a.stand_down();
    assert_eq!(goodbyes.len(), 1);
    assert_eq!(request(&goodbyes[0])["method"], "thread/unsubscribe");
    assert_eq!(request(&goodbyes[0])["params"]["threadId"], "sess-1");
}

#[test]
fn endpoint_config_change_detaches_for_immediate_reconnect() {
    assert_eq!(
        should_detach(true, true, Some("tcp:127.0.0.1:4888"), Some("tcp:127.0.0.1:4999")),
        Some(Detach::Reconfigure)
    );
    assert_eq!(
        should_detach(true, true, Some("tcp:127.0.0.1:4888"), Some("tcp:127.0.0.1:4888")),
        None
    );
    assert_eq!(
        should_detach(true, true, Some("tcp:127.0.0.1:4888"), None),
        Some(Detach::Reconfigure)
    );
}

#[test]
fn a_session_is_given_up_until_it_is_mentioned_again() {
    let tun = tunables();
    let mut a = Attached::new(&sessions(&["sess-1"]), 1, 0);
    let mut now: u64 = 0;
    for _ in 0..3 {
        let id = ask(&mut a, now, &tun);
        let _ = loaded(&mut a, id, &["other"], now + 1, &tun);
        now += 1000;
    }
    // Only the periodic list goes on; a mention makes a list due at once.
    let id = ask(&mut a, now, &tun);
    let _ = loaded(&mut a, id, &["other"], now + 1, &tun);
    assert!(a.list_request(now + 2, &tun).is_none(), "given up");
    a.sync_sessions(&sessions(&["sess-1"]), 2, now + 2);
    assert!(a.list_request(now + 2, &tun).is_some(), "mentioned again");
}

#[test]
fn silent_sessions_are_let_go() {
    let tun = Tunables { idle_ttl: 1000, ..tunables() };
    let mut a = Attached::new(&sessions(&["sess-1"]), 1, 0);
    let id = ask(&mut a, 0, &tun);
    let (_, resumes) = loaded(&mut a, id, &["sess-1"], 1, &tun);
    let _ = accept(&mut a, &resumes[0], 2, &tun);
    let (gone, requests) = a.evict_idle(1002, &tun);
    assert!(gone.is_empty() && requests.is_empty());
    let (gone, requests) = a.evict_idle(1003, &tun);
    assert_eq!(gone, ["sess-1"]);
    assert_eq!(request(&requests[0])["method"], "thread/unsubscribe");
    assert!(a.sessions().is_empty());
}

#[test]
fn a_reply_to_nothing_is_passed_over() {
    let tun = tunables();
    let mut a = Attached::new(&sessions(&["sess-1"]), 1, 0);
    assert_eq!(
        a.on_incoming(parse_incoming(r#"{"id":77,"result":{}}"#), 1, &tun),
        Step::Reply(Reply::Unknown)
    );
    let id = ask(&mut a, 1, &tun);
    let (_, resumes) = loaded(&mut a, id, &["sess-1"], 2, &tun);
    let resume = request(&resumes[0])["id"].as_i64().unwrap();
    let raw = format!("{{\"id\":{resume},\"error\":{{}}}}");
    assert_eq!(
        a.on_incoming(parse_incoming(&raw), 3, &tun),
        Step::Reply(Reply::Refused { session: "sess-1".to_string() })
    );
}

#[test]
fn quiet_text_is_handed_on_by_age_and_at_the_end_of_a_turn() {
    let tun = tunables();
    let mut a = Attached::new(&sessions(&["sess-1"]), 1, 0);
    let id = ask(&mut a, 0, &tun);
    let (_, resumes) = loaded(&mut a, id, &["sess-1"], 1, &tun);
    let _ = accept(&mut a, &resumes[0], 2, &tun);
    assert!(batches(&mut a, &delta("sess-1", "i", "quiet"), 10, &tun).is_empty());
    assert!(a.flush_quiet(59, &tun).is_empty());
    assert_eq!(a.flush_quiet(60, &tun).len(), 1);
    assert!(batches(&mut a, &delta("sess-1", "i", " end"), 61, &tun).is_empty());
    let turn = r#"{"method":"turn/completed","params":{"threadId":"sess-1","turn":{}}}"#;
    let out = batches(&mut a, turn, 62, &tun);
    assert_eq!(
        out[0].1.payload,
        BatchPayload::Delta { index: Some(1), text: " end".into() }
    );
}

#[test]
fn the_configuration_is_read_again_in_time() {
    let tun = tunables();
    let mut a = Attached::new(&sessions(&[]), 1, 0);
    assert!(!a.refresh_due(99, &tun));
    assert!(a.refresh_due(100, &tun));
    assert!(!a.refresh_due(199, &tun));
}

#[test]
fn requests_count_on_from_the_opening_one() {
    let tun = Tunables::default();
    let mut a = Attached::new(&sessions(&["s1"]), 0, 0);
    assert_eq!(ask(&mut a, 0, &tun), 2);
}
