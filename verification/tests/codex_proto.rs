//! The wire format of the Codex app-server.

use dontspeakd::codex_stream::client::{initialize_step, InitStep};
use dontspeakd::codex_stream::proto::{
    initialize_request, initialized_notification, loaded_thread_ids, parse_incoming, read_message,
    resumed_session_id, session_for_thread, thread_loaded_list_request, thread_resume_request,
    thread_unsubscribe_request, Incoming,
};
use dontspeakd::json::{parse, render, Json};
use serde_json::Value;

fn value(raw: &str) -> Value {
    serde_json::from_str(raw).unwrap()
}

fn json(raw: &str) -> Json {
    parse(raw).expect("a JSON text")
}

#[test]
fn initialize_carries_client_info_and_the_opt_out_list() {
    let raw = initialize_request(7, "1.2.3");
    let v = value(&raw);
    assert_eq!(v["method"], "initialize");
    assert_eq!(v["id"], 7);
    assert_eq!(v["params"]["clientInfo"]["name"], "dontspeak");
    assert_eq!(v["params"]["clientInfo"]["version"], "1.2.3");
    let opt_out = v["params"]["capabilities"]["optOutNotificationMethods"]
        .as_array()
        .expect("opt-out list present");
    assert!(
        opt_out.iter().any(|m| m == "item/reasoning/textDelta"),
        "reasoning deltas opted out"
    );
    assert!(
        opt_out.iter().any(|m| m == "item/reasoning/summaryTextDelta"),
        "reasoning summary deltas opted out"
    );
    assert!(
        !opt_out.iter().any(|m| m == "item/agentMessage/delta"),
        "the one stream that is consumed must never be opted out"
    );
}

#[test]
fn requests_render_the_documented_wire_shapes() {
    let v = value(&thread_resume_request(3, "thr_1"));
    assert_eq!(v["method"], "thread/resume");
    assert_eq!(v["params"]["threadId"], "thr_1");
    let v = value(&thread_loaded_list_request(4));
    assert_eq!(v["method"], "thread/loaded/list");
    let v = value(&thread_unsubscribe_request(5, "thr_2"));
    assert_eq!(v["method"], "thread/unsubscribe");
    assert_eq!(v["params"]["threadId"], "thr_2");
    let v = value(&initialized_notification());
    assert_eq!(v["method"], "initialized");
    assert!(v.get("id").is_none(), "a notification has no id");
}

#[test]
fn parses_the_delta_notification_shape() {
    let raw = r#"{"method":"item/agentMessage/delta","params":{
        "threadId":"thr_1","turnId":"turn_9","itemId":"item_3","delta":"> Spoken"}}"#;
    assert_eq!(
        parse_incoming(raw),
        Incoming::AgentMessageDelta {
            thread_id: "thr_1".into(),
            item_id: "item_3".into(),
            delta: "> Spoken".into(),
        }
    );
}

#[test]
fn parses_item_completed_for_agent_messages_only() {
    let agent = r#"{"method":"item/completed","params":{
        "threadId":"thr_1","turnId":"t","completedAtMs":1730000000000,
        "item":{"type":"agentMessage","id":"item_3","text":"> Done.\n\nBody.","phase":"final_answer"}}}"#;
    assert_eq!(
        parse_incoming(agent),
        Incoming::AgentMessageCompleted {
            thread_id: "thr_1".into(),
            item_id: "item_3".into(),
            text: "> Done.\n\nBody.".into(),
        }
    );
    let cmd = r#"{"method":"item/completed","params":{
        "threadId":"thr_1","turnId":"t","completedAtMs":1,
        "item":{"type":"commandExecution","id":"item_4","command":"ls"}}}"#;
    assert_eq!(parse_incoming(cmd), Incoming::Other);
}

#[test]
fn parses_turn_completed_and_responses() {
    assert_eq!(
        parse_incoming(r#"{"method":"turn/completed","params":{"threadId":"thr_1","turn":{}}}"#),
        Incoming::TurnCompleted { thread_id: "thr_1".into() }
    );
    assert_eq!(
        parse_incoming(r#"{"id":9,"result":{"data":["thr_1"]}}"#),
        Incoming::Response { id: 9, result: Some(json(r#"{"data":["thr_1"]}"#)) }
    );
    assert_eq!(
        parse_incoming(r#"{"id":10,"error":{"code":-32600,"message":"nope"}}"#),
        Incoming::Response { id: 10, result: None }
    );
}

#[test]
fn unknown_methods_and_junk_are_ignored() {
    for raw in [
        r#"{"method":"thread/started","params":{"thread":{"id":"thr_9"}}}"#,
        r#"{"method":"item/reasoning/textDelta","params":{"threadId":"t","delta":"x"}}"#,
        r#"{"method":"some/future/method","params":{"whatever":1}}"#,
        r#"{"method":"item/agentMessage/delta","params":{"malformed":true}}"#,
        "not json at all",
        "{}",
    ] {
        assert_eq!(parse_incoming(raw), Incoming::Other, "must ignore: {raw}");
    }
}

#[test]
fn result_helpers_are_tolerant() {
    let ok = json(r#"{"data": ["thr_1", "thr_2"], "nextCursor": null}"#);
    assert_eq!(loaded_thread_ids(&ok), vec!["thr_1", "thr_2"]);
    assert!(loaded_thread_ids(&json("{}")).is_empty());
    assert!(loaded_thread_ids(&Json::Null).is_empty());

    let resumed = json(r#"{"thread": {"id": "thr_1", "sessionId": "sess-9"}}"#);
    assert_eq!(resumed_session_id(&resumed).as_deref(), Some("sess-9"));
    assert_eq!(resumed_session_id(&Json::Null), None);
}

#[test]
fn session_for_thread_is_uuid_passthrough() {
    assert_eq!(
        session_for_thread("0192aef2-4c3e-7b1a-9f00-abcdef012345"),
        "0192aef2-4c3e-7b1a-9f00-abcdef012345"
    );
}

#[test]
fn a_parsed_frame_is_read_without_its_text() {
    let frame = Json::Object(vec![
        ("id".to_string(), Json::Int(3)),
        ("result".to_string(), Json::Bool(true)),
    ]);
    assert_eq!(
        read_message(frame),
        Incoming::Response { id: 3, result: Some(Json::Bool(true)) }
    );
    assert_eq!(read_message(Json::Int(1)), Incoming::Other);
}

#[test]
fn json_is_read_back_as_it_was_written() {
    let j = Json::Object(vec![
        ("a".to_string(), Json::Int(-4)),
        ("b".to_string(), Json::List(vec![Json::Null, Json::Text("x\n".to_string())])),
        ("c".to_string(), Json::Bool(false)),
    ]);
    assert_eq!(render(&j), r#"{"a":-4,"b":[null,"x\n"],"c":false}"#);
    assert_eq!(parse(&render(&j)), Some(j));
    assert_eq!(parse("1.5"), Some(Json::Number("1.5".to_string())));
    assert_eq!(render(&Json::Number("1.5".to_string())), "1.5");
    assert_eq!(
        parse("18446744073709551615"),
        Some(Json::Number("18446744073709551615".to_string()))
    );
    assert_eq!(parse("{"), None);
}

#[test]
fn the_handshake_waits_for_its_own_reply() {
    let reply = |id: i64, result: Option<Json>| Incoming::Response { id, result };
    assert_eq!(initialize_step(1, &reply(2, Some(Json::Null))), InitStep::Wait);
    assert_eq!(initialize_step(1, &Incoming::Other), InitStep::Wait);
    assert_eq!(initialize_step(1, &reply(1, Some(Json::Null))), InitStep::Ready);
    assert_eq!(initialize_step(1, &reply(1, None)), InitStep::Refused);
}

#[test]
fn a_message_gives_each_field_once() {
    assert_eq!(parse_incoming(r#"{"id":1,"id":2,"result":null}"#), Incoming::Other);
    assert_eq!(parse_incoming(r#"{"id":1,"\u0069d":2,"result":null}"#), Incoming::Other);
    let last = Incoming::TurnCompleted { thread_id: "b".to_string() };
    assert_eq!(
        parse_incoming(
            r#"{"method":"turn/completed","x":1,"x":2,"params":{"threadId":"a","threadId":"b"}}"#
        ),
        last,
        "within the parameters the last one counts"
    );
}

#[test]
fn what_is_not_known_is_passed_over() {
    let reply = |extra: &str| parse_incoming(&format!("{{\"id\":3, {extra} \"result\":true}}"));
    let taken = Incoming::Response { id: 3, result: Some(Json::Bool(true)) };
    assert_eq!(reply(""), taken);
    assert_eq!(reply(r#""n": 1e999 ,"#), taken);
    assert_eq!(reply(r#""s":"\ud800","#), taken);
    let deep = format!("\"d\":{}{},", "[".repeat(1000), "]".repeat(1000));
    assert_eq!(reply(&deep), taken);
    assert_eq!(reply(r#""s":"\x","#), Incoming::Other, "no JSON");
    assert_eq!(reply(r#"1:2,"#), Incoming::Other);
    assert_eq!(reply(r#""\ud800":2,"#), Incoming::Other, "a key must be a text");
    assert_eq!(parse_incoming(r#"{"id":3,"result":true,}"#), Incoming::Other);
    assert_eq!(parse_incoming(r#"{"id":3,"result":true} x"#), Incoming::Other);
    assert_eq!(parse_incoming("{}"), Incoming::Other);
    assert_eq!(parse_incoming(" [ 3 , null , null , true ] "), taken);
    assert_eq!(parse_incoming("[3,null,null,true,null,0]"), Incoming::Other);
}

#[test]
fn a_known_field_is_read_to_a_limited_depth() {
    let reply = |n: usize| {
        let raw = format!("{{\"id\":3,\"result\":{}{}}}", "[".repeat(n), "]".repeat(n));
        parse_incoming(&raw)
    };
    assert!(matches!(reply(126), Incoming::Response { id: 3, result: Some(Json::List(_)) }));
    assert_eq!(reply(127), Incoming::Other);
}
