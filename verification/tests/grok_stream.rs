//! Following the updates files of Grok sessions.

use dontspeakd::coalesce::{BatchPayload, Coalescer};
use dontspeakd::grok_stream::proto::{batch_key, chunk_in, parse_agent_text_chunk};
use dontspeakd::grok_stream::registry::SessionRegistry;
use dontspeakd::grok_stream::supervisor::{should_park, Sighting, Supervisor, FLUSH_AGE, IDLE_TTL};
use dontspeakd::grok_stream::tail::{split_lines, JsonlTail};
use dontspeakd::json::Json;

#[test]
fn parses_live_agent_message_chunk() {
    let line = r#"{"timestamp":1,"method":"session/update","params":{"sessionId":"s1","update":{"sessionUpdate":"agent_message_chunk","content":{"type":"text","text":"> Digest.\n"}},"_meta":{"promptId":"p1","chunkId":1}}}"#;
    let c = parse_agent_text_chunk(line).expect("agent chunk");
    assert_eq!(c.session_id.as_deref(), Some("s1"));
    assert_eq!(c.prompt_id.as_deref(), Some("p1"));
    assert_eq!(c.text, "> Digest.\n");
    assert_eq!(batch_key(&c, "s1"), "p1");
}

#[test]
fn ignores_thought_tool_user_and_xai_hooks() {
    let lines = [
        r#"{"method":"session/update","params":{"update":{"sessionUpdate":"agent_thought_chunk","content":{"type":"text","text":"thinking"}}}}"#,
        r#"{"method":"session/update","params":{"update":{"sessionUpdate":"user_message_chunk","content":{"type":"text","text":"hi"}}}}"#,
        r#"{"method":"session/update","params":{"update":{"sessionUpdate":"tool_call","toolCallId":"t1"}}}"#,
        r#"{"method":"_x.ai/session/update","params":{"update":{"sessionUpdate":"hook_execution"}}}"#,
        r#"{"method":"other","params":{}}"#,
        r#"{not json"#,
        "",
    ];
    for line in lines {
        assert!(parse_agent_text_chunk(line).is_none(), "should ignore: {line}");
    }
}

#[test]
fn empty_prompt_id_falls_back_to_session() {
    let line = r#"{"method":"session/update","params":{"sessionId":"s","update":{"sessionUpdate":"agent_message_chunk","content":{"type":"text","text":"hi"}},"_meta":{"promptId":"  "}}}"#;
    let c = parse_agent_text_chunk(line).unwrap();
    assert!(c.prompt_id.is_none());
    assert_eq!(batch_key(&c, "s"), "s");
}

#[test]
fn empty_text_ignored() {
    let line = r#"{"method":"session/update","params":{"update":{"sessionUpdate":"agent_message_chunk","content":{"type":"text","text":""}}}}"#;
    assert!(parse_agent_text_chunk(line).is_none());
}

/// A line with one more field in its update's content.
fn with_content(content: &str) -> String {
    format!(
        "{{\"method\":\" _x.ai/session/update \",\"params\":{{\"session_id\":\" s \",\"update\":{{\"session_update\":\"agent_message_chunk\",\"content\":{content}}}}}}}"
    )
}

#[test]
fn other_spellings_and_missing_types_are_accepted() {
    for content in [
        r#"{"text":"hi"}"#,
        r#"{"type":null,"text":"hi"}"#,
        r#"{"type":"TEXT","text":"hi"}"#,
        r#"["text","hi"]"#,
    ] {
        let c = parse_agent_text_chunk(&with_content(content)).expect(content);
        assert_eq!(c.text, "hi");
        assert_eq!(c.session_id.as_deref(), Some("s"));
    }
}

#[test]
fn malformed_fields_spoil_a_line() {
    for content in [
        r#"{"type":"image","text":"hi"}"#,
        r#"{"type":1,"text":"hi"}"#,
        r#"{"text":1}"#,
        r#""hi""#,
        r#"["text","hi","more"]"#,
    ] {
        assert!(parse_agent_text_chunk(&with_content(content)).is_none(), "{content}");
    }
    let twice = r#"{"method":"session/update","params":{"sessionId":"s","session_id":"s","update":{"sessionUpdate":"agent_message_chunk","content":{"text":"hi"}}}}"#;
    assert!(parse_agent_text_chunk(twice).is_none(), "a field under both names");
    let meta = r#"{"method":"session/update","params":{"update":{"sessionUpdate":"agent_message_chunk","content":{"text":"hi"}},"_meta":7}}"#;
    assert!(parse_agent_text_chunk(meta).is_none(), "meta data of the wrong type");
}

#[test]
fn a_parsed_line_is_read_without_its_text() {
    let text = |s: &str| Json::Text(s.to_string());
    let line = Json::List(vec![
        text("session/update"),
        Json::List(vec![
            Json::Null,
            Json::List(vec![text("agent_message_chunk"), Json::List(vec![Json::Null, text("hi")])]),
        ]),
    ]);
    let c = chunk_in(&line).expect("a chunk");
    assert_eq!(c.text, "hi");
    assert_eq!(c.session_id, None);
    assert!(chunk_in(&Json::Null).is_none());
}

// ── The tail of a file, here a vector of bytes ───────────────────────────────

/// Reads what is new of a file.
fn poll(tail: &mut JsonlTail, file: &[u8]) -> Vec<String> {
    match tail.sight(file.len() as u64) {
        Some(from) => tail.feed(&file[from as usize..].to_vec()),
        None => Vec::new(),
    }
}

#[test]
fn attach_at_eof_skips_existing_then_reads_appends() {
    let mut file = b"{\"old\":1}\n".to_vec();
    let mut tail = JsonlTail::attach_at_eof(file.len() as u64);
    assert!(poll(&mut tail, &file).is_empty());

    file.extend_from_slice(b"{\"new\":2}\n");
    assert_eq!(poll(&mut tail, &file), vec![r#"{"new":2}"#]);
}

#[test]
fn partial_line_buffered_until_newline() {
    let mut file: Vec<u8> = Vec::new();
    let mut tail = JsonlTail::attach_at(0, 0);

    file.extend_from_slice(br#"{"partial""#);
    assert!(poll(&mut tail, &file).is_empty());
    assert!(tail.has_partial());

    file.extend_from_slice(br#":true}"#);
    file.extend_from_slice(b"\n");
    assert_eq!(poll(&mut tail, &file), vec![r#"{"partial":true}"#]);
    assert!(!tail.has_partial());
}

#[test]
fn truncation_resets_offset() {
    let file = b"line-one\nline-two\n".to_vec();
    let mut tail = JsonlTail::attach_at(file.len() as u64, 0);
    assert_eq!(poll(&mut tail, &file).len(), 2);
    assert!(tail.offset() > 0);

    let file = b"fresh\n".to_vec();
    assert_eq!(poll(&mut tail, &file), vec!["fresh"]);
}

#[test]
fn a_tail_starts_no_later_than_the_end() {
    assert_eq!(JsonlTail::attach_at(5, 9).offset(), 5);
    assert_eq!(JsonlTail::attach_at(5, 3).offset(), 3);
}

#[test]
fn lines_lose_returns_and_empty_ones_are_dropped() {
    let (lines, rest) = split_lines(&b"a\r\n\n\r\nb\nc\r".to_vec());
    assert_eq!(lines, vec![b"a".to_vec(), b"b".to_vec()]);
    assert_eq!(rest, b"c\r".to_vec());
}

#[test]
fn pieces_give_the_same_lines_as_the_whole() {
    let file = "{\"text\":\"gr\u{fc}n\"}\n{\"next\":1}\nrest".as_bytes().to_vec();
    let mut whole = JsonlTail::attach_at(0, 0);
    let all = poll(&mut whole, &file);
    for cut in 0..=file.len() {
        let mut tail = JsonlTail::attach_at(0, 0);
        let mut lines = poll(&mut tail, &file[..cut]);
        lines.extend(poll(&mut tail, &file));
        assert_eq!(lines, all, "cut at {cut}");
    }
    assert_eq!(all, vec!["{\"text\":\"gr\u{fc}n\"}", "{\"next\":1}"]);
}

#[test]
fn bytes_that_are_no_text_are_replaced() {
    let mut tail = JsonlTail::attach_at(0, 0);
    assert_eq!(tail.feed(&vec![b'a', 0xFF, b'b', b'\n']), vec!["a\u{FFFD}b"]);
}

// ── The registry and the supervisor ──────────────────────────────────────────

#[test]
fn registry_nudge_forget_and_park_snapshot() {
    let mut reg = SessionRegistry::new();
    assert_eq!(reg.len(), 0);
    reg.nudge("  ", 0);
    assert_eq!(reg.len(), 0, "empty session ignored");
    reg.nudge("s1", 0);
    reg.nudge("s2", 0);
    assert!(reg.contains("s1"));
    assert_eq!(reg.len(), 2);
    let (snap, epoch) = reg.snapshot();
    assert_eq!(snap.len(), 2);
    assert!(epoch >= 2);
    reg.forget("s1");
    assert!(!reg.contains("s1"));
    assert!(reg.contains("s2"));
    reg.forget("missing");
    assert_eq!(reg.len(), 1);
}

#[test]
fn sessions_are_pruned_by_age_and_changes_wake() {
    let mut reg = SessionRegistry::new();
    reg.nudge("old", 0);
    reg.nudge("new", 100);
    let (_, epoch) = reg.snapshot();
    reg.prune_older_than(IDLE_TTL, IDLE_TTL);
    assert_eq!(reg.snapshot(), (vec!["old".to_string(), "new".to_string()], epoch));
    reg.prune_older_than(IDLE_TTL + 1, IDLE_TTL);
    assert_eq!(reg.snapshot().0, ["new"]);
    assert_eq!(reg.wait_change(epoch, false), Some(reg.snapshot().1));
    let (_, epoch) = reg.snapshot();
    reg.forget("missing");
    assert_eq!(reg.wait_change(epoch, false), None);
}

#[test]
fn coalescer_flushes_on_newline_and_age() {
    let mut c = Coalescer::new();
    let t0: u64 = 1000;
    assert!(c.on_delta("s", "k", "> half", t0).is_none());
    let (sess, batch) = c.on_delta("s", "k", " digest\n", t0).unwrap();
    assert_eq!(sess, "s");
    assert!(!batch.is_final);
    match &batch.payload {
        BatchPayload::Delta { text, .. } => assert_eq!(text, "> half digest\n"),
        other => panic!("expected delta, got {other:?}"),
    }
    assert!(c.on_delta("s", "k2", "no-nl", t0).is_none());
    let aged = c.flush_aged(t0 + 200, 150, None);
    assert_eq!(aged.len(), 1);
    assert_eq!(aged[0].0, "s");
}

fn agent_line(session: &str, prompt: &str, text: &str) -> String {
    let text = serde_json::to_string(text).unwrap();
    format!(
        "{{\"timestamp\":1,\"method\":\"session/update\",\"params\":{{\"sessionId\":\"{session}\",\"update\":{{\"sessionUpdate\":\"agent_message_chunk\",\"content\":{{\"type\":\"text\",\"text\":{text}}}}},\"_meta\":{{\"promptId\":\"{prompt}\"}}}}}}\n"
    )
}

#[test]
fn integration_append_digest_chunks_batch() {
    let session = "sess-int";
    let mut reg = SessionRegistry::new();
    reg.nudge(session, 0);
    let mut sup = Supervisor::new();
    let (wanted, _) = reg.snapshot();
    assert_eq!(sup.settle(true, true, &wanted), Some(vec![session.to_string()]));
    sup.attach(session, "/g/updates.jsonl".to_string(), 0);
    assert_eq!(sup.path(session).as_deref(), Some("/g/updates.jsonl"));

    let mut file = agent_line(session, "p1", "> Mid-turn digest line.\n\n").into_bytes();
    file.extend_from_slice(
        br#"{"method":"session/update","params":{"update":{"sessionUpdate":"agent_thought_chunk","content":{"type":"text","text":"nope"}}}}"#,
    );
    file.push(b'\n');
    let from = sup.observe(session, Sighting::Length(file.len() as u64));
    assert_eq!(from, Some(0));
    let lines = sup.feed(session, &file);
    assert_eq!(lines.len(), 2);
    let out = sup.on_lines(session, &lines, 10);
    assert_eq!(out.len(), 1);
    assert_eq!(out[0].0, session);
    assert_eq!(
        out[0].1.payload,
        BatchPayload::Delta { index: Some(0), text: "> Mid-turn digest line.\n\n".to_string() }
    );
    assert_eq!(sup.observe(session, Sighting::Length(file.len() as u64)), None);
}

#[test]
fn quiet_text_is_handed_on_by_age() {
    let mut sup = Supervisor::new();
    sup.attach("s", "/g/u".to_string(), 0);
    let line = agent_line("s", "p", "quiet");
    assert!(sup.on_lines("s", &vec![line.trim().to_string()], 10).is_empty());
    assert!(sup.flush_aged(10 + FLUSH_AGE - 1, FLUSH_AGE).is_empty());
    let out = sup.flush_aged(10 + FLUSH_AGE, FLUSH_AGE);
    assert_eq!(out.len(), 1);
    assert_eq!(out[0].1.key, "p");
}

#[test]
fn forget_drops_attachment_on_next_poll() {
    let session = "sess-forget";
    let mut reg = SessionRegistry::new();
    reg.nudge(session, 0);
    reg.nudge("other", 0);
    let mut sup = Supervisor::new();
    let _ = sup.settle(true, true, &reg.snapshot().0);
    sup.attach(session, "/g/u".to_string(), 0);
    assert_eq!(sup.len(), 1);
    reg.forget(session);
    assert_eq!(sup.settle(true, true, &reg.snapshot().0), Some(vec!["other".to_string()]));
    assert_eq!(sup.len(), 0);
}

#[test]
fn grok_stream_false_parks_and_clears_attachments() {
    let session = "sess-park";
    let mut sup = Supervisor::new();
    sup.attach(session, "/g/u".to_string(), 0);
    let line = agent_line(session, "p", "quiet");
    assert!(sup.on_lines(session, &vec![line.trim().to_string()], 10).is_empty());
    let wanted = vec![session.to_string()];
    assert_eq!(sup.settle(false, true, &wanted), None);
    assert_eq!(sup.len(), 0, "park clears attachments");
    assert!(sup.flush_aged(9999, 0).is_empty(), "and the text that waited");
}

#[test]
fn parking_needs_one_reason() {
    let some = vec!["s".to_string()];
    assert!(!should_park(true, true, &some));
    assert!(should_park(false, true, &some));
    assert!(should_park(true, false, &some));
    assert!(should_park(true, true, &Vec::new()));
}

#[test]
fn files_that_cannot_be_read_are_looked_for_anew() {
    let mut sup = Supervisor::new();
    for (i, s) in ["a", "b", "c"].iter().enumerate() {
        sup.attach(s, format!("/g/{i}"), 0);
    }
    assert_eq!(sup.observe("a", Sighting::Gone), None);
    assert_eq!(sup.observe("b", Sighting::Failed), None);
    assert_eq!(sup.observe("c", Sighting::Missed), None);
    assert!(!sup.follows("a") && !sup.follows("b") && sup.follows("c"));
    assert_eq!(sup.sessions(), ["c"]);
}

#[test]
fn a_line_gives_each_field_once() {
    let line = |extra: &str| {
        format!(
            "{{\"method\":\"session/update\",{extra}\"params\":{{\"session_id\":\"s1\",\
             \"update\":{{\"sessionUpdate\":\"agent_message_chunk\",\
             \"content\":{{\"type\":\"text\",\"text\":\"hi\",{extra}\"n\":1}}}}}}}}"
        )
    };
    let chunk = parse_agent_text_chunk(&line("")).expect("a chunk");
    assert_eq!(chunk.session_id.as_deref(), Some("s1"));
    assert_eq!(chunk.text, "hi");
    assert!(parse_agent_text_chunk(&line("\"x\":1,\"x\":-1e999,")).is_some());
    assert!(parse_agent_text_chunk(&line("\"method\":\"session/update\",")).is_none());
    assert!(parse_agent_text_chunk(&line("\"text\":\"ho\",")).is_none());
}
