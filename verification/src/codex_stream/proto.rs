//! The subset of the Codex app-server's JSON-RPC that the subscriber speaks.
//!
//! Reading is tolerant: what is unknown, malformed or not consumed becomes
//! [`Incoming::Other`], so that a newer server means less narration and never a
//! failure.

use crate::json::{
    as_text, can_be_record, empty_object, entry_of, field, field_of, is_record, json_opt, json_ref,
    optional_text, present, read_optional_text, render, rendered, slot, slot_of, take_slot,
    text_list, text_or_nothing, text_value, texts_data, with_entry, Json, JsonView,
};
use crate::record::{any_field, any_named, read_shaped, shaped, Field, Shape, ShapeView};
use crate::text::{same_text, text_opt, texts};
use vstd::prelude::*;

verus! {

/// The session that a thread narrates under: a root thread's id is its session id.
pub fn session_for_thread(thread_id: &str) -> (r: String)
    ensures
        r@ == thread_id@,
{
    thread_id.to_owned()
}

// ── Requests ─────────────────────────────────────────────────────────────────

/// The notification streams that are never consumed, by their method names.
pub open spec fn opt_out_list() -> Seq<Seq<char>> {
    seq![
        "item/reasoning/textDelta"@,
        "item/reasoning/summaryTextDelta"@,
        "item/reasoning/summaryPartAdded"@,
        "item/plan/delta"@,
        "item/commandExecution/outputDelta"@,
        "item/fileChange/outputDelta"@,
        "command/exec/outputDelta"@,
        "process/outputDelta"@,
        "rawResponseItem/completed"@,
        "turn/diff/updated"@,
    ]
}

/// The notification streams that are never consumed, by their method names.
pub fn opt_out_methods() -> (r: Vec<String>)
    ensures
        texts(r@) == opt_out_list(),
{
    let mut v: Vec<String> = Vec::new();
    v.push("item/reasoning/textDelta".to_owned());
    v.push("item/reasoning/summaryTextDelta".to_owned());
    v.push("item/reasoning/summaryPartAdded".to_owned());
    v.push("item/plan/delta".to_owned());
    v.push("item/commandExecution/outputDelta".to_owned());
    v.push("item/fileChange/outputDelta".to_owned());
    v.push("command/exec/outputDelta".to_owned());
    v.push("process/outputDelta".to_owned());
    v.push("rawResponseItem/completed".to_owned());
    v.push("turn/diff/updated".to_owned());
    assert(texts(v@) =~= opt_out_list());
    v
}

/// An object.
pub open spec fn object(entries: Seq<(Seq<char>, JsonView)>) -> JsonView {
    JsonView::Object(entries)
}

/// The request `method` with the number `id`.
pub open spec fn request_data(method: Seq<char>, id: i64, params: JsonView) -> JsonView {
    object(
        seq![
            ("method"@, JsonView::Text(method)),
            ("id"@, JsonView::Int(id)),
            ("params"@, params),
        ],
    )
}

/// The text of the request `method` about one thread.
pub open spec fn thread_request(method: Seq<char>, id: i64, thread: Seq<char>) -> Seq<char> {
    rendered(
        request_data(method, id, object(seq![("threadId"@, JsonView::Text(thread))])),
    )
}

/// The text of the request for the loaded threads.
pub open spec fn list_request(id: i64) -> Seq<char> {
    rendered(request_data("thread/loaded/list"@, id, object(Seq::empty())))
}

/// What the opening request says of this client: its name, title and version, and the
/// streams that it opts out of.
pub open spec fn initialize_params(version: Seq<char>) -> JsonView {
    object(
        seq![
            (
                "clientInfo"@,
                object(
                    seq![
                        ("name"@, JsonView::Text("dontspeak"@)),
                        ("title"@, JsonView::Text("DontSpeak voice narration"@)),
                        ("version"@, JsonView::Text(version)),
                    ],
                ),
            ),
            (
                "capabilities"@,
                object(
                    seq![
                        (
                            "optOutNotificationMethods"@,
                            JsonView::List(texts_data(opt_out_list())),
                        ),
                    ],
                ),
            ),
        ],
    )
}

/// An object with one entry.
fn object1(name: &str, value: Json) -> (r: Json)
    ensures
        r@ == object(seq![(name@, value@)]),
{
    let r = with_entry(empty_object(), name, value);
    assert(r@->Object_0 =~= seq![(name@, value@)]);
    r
}

/// The request `method` with the number `id`.
fn request(method: &str, id: i64, params: Json) -> (r: Json)
    ensures
        r@ == request_data(method@, id, params@),
{
    let number = Json::Int(id);
    let head = object1("method", text_value(method));
    let r = with_entry(with_entry(head, "id", number), "params", params);
    assert(r@->Object_0 =~= request_data(method@, id, params@)->Object_0);
    r
}

/// The opening request: names this client, in its `version`, and opts out of the
/// streams it never consumes.
pub fn initialize_request(id: i64, version: &str) -> (r: String)
    ensures
        r@ == rendered(request_data("initialize"@, id, initialize_params(version@))),
{
    let name = object1("name", text_value("dontspeak"));
    let titled = with_entry(name, "title", text_value("DontSpeak voice narration"));
    let info = with_entry(titled, "version", text_value(version));
    let caps = object1("optOutNotificationMethods", text_list(&opt_out_methods()));
    let params = with_entry(object1("clientInfo", info), "capabilities", caps);
    proof {
        let want = initialize_params(version@)->Object_0;
        assert(info@->Object_0 =~= want[0].1->Object_0);
        assert(caps@->Object_0 =~= want[1].1->Object_0);
        assert(params@->Object_0 =~= want);
    }
    render(&request("initialize", id, params))
}

/// The notification that follows the reply to the opening request.
pub fn initialized_notification() -> (r: String)
    ensures
        r@ == rendered(
            object(
                seq![
                    ("method"@, JsonView::Text("initialized"@)),
                    ("params"@, object(Seq::empty())),
                ],
            ),
        ),
{
    let j = with_entry(object1("method", text_value("initialized")), "params", empty_object());
    assert(j@->Object_0 =~= seq![
        ("method"@, JsonView::Text("initialized"@)),
        ("params"@, object(Seq::empty())),
    ]);
    render(&j)
}

/// Asks for the ids of the threads that the server has loaded.
pub fn thread_loaded_list_request(id: i64) -> (r: String)
    ensures
        r@ == list_request(id),
{
    render(&request("thread/loaded/list", id, empty_object()))
}

/// Rejoins a running thread, which subscribes this connection to its events.
pub fn thread_resume_request(id: i64, thread_id: &str) -> (r: String)
    ensures
        r@ == thread_request("thread/resume"@, id, thread_id@),
{
    render(&request("thread/resume", id, object1("threadId", text_value(thread_id))))
}

/// Detaches this connection from a thread's events.
pub fn thread_unsubscribe_request(id: i64, thread_id: &str) -> (r: String)
    ensures
        r@ == thread_request("thread/unsubscribe"@, id, thread_id@),
{
    render(&request("thread/unsubscribe", id, object1("threadId", text_value(thread_id))))
}

// ── Incoming messages ────────────────────────────────────────────────────────

/// One incoming message, as far as it is acted on.
#[derive(Debug, PartialEq, Eq)]
pub enum Incoming {
    /// A reply to a request of ours; no result where the server replied an error.
    Response { id: i64, result: Option<Json> },
    /// A streamed piece of an assistant message.
    AgentMessageDelta { thread_id: String, item_id: String, delta: String },
    /// The authoritative text of a completed assistant message.
    AgentMessageCompleted { thread_id: String, item_id: String, text: String },
    /// A turn has ended.
    TurnCompleted { thread_id: String },
    /// Anything else.
    Other,
}

/// An [`Incoming`] by its characters.
pub enum IncomingView {
    Response { id: i64, result: Option<JsonView> },
    AgentMessageDelta { thread_id: Seq<char>, item_id: Seq<char>, delta: Seq<char> },
    AgentMessageCompleted { thread_id: Seq<char>, item_id: Seq<char>, text: Seq<char> },
    TurnCompleted { thread_id: Seq<char> },
    Other,
}

impl View for Incoming {
    type V = IncomingView;

    open spec fn view(&self) -> IncomingView {
        match *self {
            Incoming::Response { id, result } => IncomingView::Response {
                id,
                result: json_opt(result),
            },
            Incoming::AgentMessageDelta { thread_id, item_id, delta } => {
                IncomingView::AgentMessageDelta {
                    thread_id: thread_id@,
                    item_id: item_id@,
                    delta: delta@,
                }
            },
            Incoming::AgentMessageCompleted { thread_id, item_id, text } => {
                IncomingView::AgentMessageCompleted {
                    thread_id: thread_id@,
                    item_id: item_id@,
                    text: text@,
                }
            },
            Incoming::TurnCompleted { thread_id } => IncomingView::TurnCompleted {
                thread_id: thread_id@,
            },
            Incoming::Other => IncomingView::Other,
        }
    }
}

/// The text that a required field holds.
pub open spec fn required_text(s: Option<JsonView>) -> Option<Seq<char>> {
    match s {
        Some(j) => as_text(j),
        None => None,
    }
}

/// The text of a field that may be missing, but not null: empty where it is missing.
pub open spec fn defaulted_text(s: Option<JsonView>) -> Option<Seq<char>> {
    match s {
        Some(j) => as_text(j),
        None => Some(Seq::empty()),
    }
}

/// A completed item: its kind, id and text.
pub open spec fn completed_item(j: JsonView) -> Option<(Seq<char>, Seq<char>, Seq<char>)> {
    match (
        defaulted_text(slot_of(j, 0, "type"@)),
        defaulted_text(slot_of(j, 1, "id"@)),
        defaulted_text(slot_of(j, 2, "text"@)),
    ) {
        (Some(kind), Some(id), Some(text)) => if is_record(j, 3) {
            Some((kind, id, text))
        } else {
            None
        },
        _ => None,
    }
}

/// What a notification says.
pub open spec fn notification(method: Seq<char>, params: JsonView) -> IncomingView {
    if method == "item/agentMessage/delta"@ {
        match (
            required_text(slot_of(params, 0, "threadId"@)),
            required_text(slot_of(params, 1, "itemId"@)),
            required_text(slot_of(params, 2, "delta"@)),
        ) {
            (Some(thread_id), Some(item_id), Some(delta)) => if is_record(params, 3) {
                IncomingView::AgentMessageDelta { thread_id, item_id, delta }
            } else {
                IncomingView::Other
            },
            _ => IncomingView::Other,
        }
    } else if method == "item/completed"@ {
        match (
            required_text(slot_of(params, 0, "threadId"@)),
            slot_of(params, 1, "item"@),
        ) {
            (Some(thread_id), Some(item)) => match completed_item(item) {
                Some((kind, item_id, text)) => if is_record(params, 2) && kind == "agentMessage"@
                    && item_id.len() > 0 {
                    IncomingView::AgentMessageCompleted { thread_id, item_id, text }
                } else {
                    IncomingView::Other
                },
                None => IncomingView::Other,
            },
            _ => IncomingView::Other,
        }
    } else if method == "turn/completed"@ {
        match required_text(slot_of(params, 0, "threadId"@)) {
            Some(thread_id) => if is_record(params, 1) {
                IncomingView::TurnCompleted { thread_id }
            } else {
                IncomingView::Other
            },
            None => IncomingView::Other,
        }
    } else {
        IncomingView::Other
    }
}

/// Whether an optional field is missing, null, or a 64-bit integer.
pub open spec fn int_or_nothing(s: Option<JsonView>) -> bool {
    present(s) is Some ==> present(s)->0 is Int
}

/// What a message says: without a method and with a number it is a reply, with a
/// method a notification.
pub open spec fn message(j: JsonView) -> IncomingView {
    let id = slot_of(j, 0, "id"@);
    let method = slot_of(j, 1, "method"@);
    if !is_record(j, 5) || !int_or_nothing(id) || !text_or_nothing(method) {
        IncomingView::Other
    } else {
        match (optional_text(method), present(id)) {
            (None, Some(JsonView::Int(id))) => IncomingView::Response {
                id,
                result: if present(slot_of(j, 4, "error"@)) is Some {
                    None
                } else {
                    Some(value_or_null(slot_of(j, 3, "result"@)))
                },
            },
            (Some(m), _) => notification(m, value_or_null(slot_of(j, 2, "params"@))),
            _ => IncomingView::Other,
        }
    }
}

/// A field's value, null where it is missing.
pub open spec fn value_or_null(s: Option<JsonView>) -> JsonView {
    match s {
        Some(j) => j,
        None => JsonView::Null,
    }
}

/// The text that a required field holds.
fn read_required(s: Option<&Json>) -> (r: Option<String>)
    ensures
        text_opt(r) == required_text(json_ref(s)),
{
    match s {
        Some(Json::Text(t)) => Some(t.as_str().to_owned()),
        _ => None,
    }
}

/// The text of a field that may be missing, but not null.
fn read_defaulted(s: Option<&Json>) -> (r: Option<String>)
    ensures
        text_opt(r) == defaulted_text(json_ref(s)),
{
    match s {
        None => Some(String::new()),
        Some(Json::Text(t)) => Some(t.as_str().to_owned()),
        _ => None,
    }
}

/// What a streamed piece says.
fn read_delta(params: &Json) -> (r: Incoming)
    ensures
        r@ == notification("item/agentMessage/delta"@, params@),
{
    let thread = read_required(slot(params, 0, "threadId"));
    let item = read_required(slot(params, 1, "itemId"));
    let delta = read_required(slot(params, 2, "delta"));
    match (thread, item, delta) {
        (Some(thread_id), Some(item_id), Some(delta)) => if can_be_record(params, 3) {
            Incoming::AgentMessageDelta { thread_id, item_id, delta }
        } else {
            Incoming::Other
        },
        _ => Incoming::Other,
    }
}

/// What a completed item says: only assistant messages with an id are narrated.
fn read_completed(params: &Json) -> (r: Incoming)
    ensures
        r@ == completed_notification(params@),
{
    let thread = read_required(slot(params, 0, "threadId"));
    let item = slot(params, 1, "item");
    match (thread, item) {
        (Some(thread_id), Some(item)) => {
            let kind = read_defaulted(slot(item, 0, "type"));
            let id = read_defaulted(slot(item, 1, "id"));
            let text = read_defaulted(slot(item, 2, "text"));
            match (kind, id, text) {
                (Some(kind), Some(item_id), Some(text)) => if can_be_record(item, 3)
                    && can_be_record(params, 2) && same_text(kind.as_str(), "agentMessage")
                    && !item_id.as_str().is_empty() {
                    Incoming::AgentMessageCompleted { thread_id, item_id, text }
                } else {
                    Incoming::Other
                },
                _ => Incoming::Other,
            }
        },
        _ => Incoming::Other,
    }
}

/// What a completed item says.
pub open spec fn completed_notification(params: JsonView) -> IncomingView {
    match (required_text(slot_of(params, 0, "threadId"@)), slot_of(params, 1, "item"@)) {
        (Some(thread_id), Some(item)) => match completed_item(item) {
            Some((kind, item_id, text)) => if is_record(params, 2) && kind == "agentMessage"@
                && item_id.len() > 0 {
                IncomingView::AgentMessageCompleted { thread_id, item_id, text }
            } else {
                IncomingView::Other
            },
            None => IncomingView::Other,
        },
        _ => IncomingView::Other,
    }
}

/// What a completed turn says.
fn read_turn(params: &Json) -> (r: Incoming)
    ensures
        r@ == (match required_text(slot_of(params@, 0, "threadId"@)) {
            Some(thread_id) => if is_record(params@, 1) {
                IncomingView::TurnCompleted { thread_id }
            } else {
                IncomingView::Other
            },
            None => IncomingView::Other,
        }),
{
    match read_required(slot(params, 0, "threadId")) {
        Some(thread_id) => if can_be_record(params, 1) {
            Incoming::TurnCompleted { thread_id }
        } else {
            Incoming::Other
        },
        None => Incoming::Other,
    }
}

/// What a parsed message says.
pub fn read_message(j: Json) -> (r: Incoming)
    ensures
        r@ == message(j@),
{
    if !can_be_record(&j, 5) {
        return Incoming::Other;
    }
    let id: Option<i64> = match slot(&j, 0, "id") {
        None => None,
        Some(Json::Null) => None,
        Some(Json::Int(n)) => Some(*n),
        Some(_) => {
            return Incoming::Other;
        },
    };
    let method = match read_optional_text(slot(&j, 1, "method")) {
        Some(m) => m,
        None => {
            return Incoming::Other;
        },
    };
    match (method, id) {
        (None, Some(id)) => {
            let failed = match slot(&j, 4, "error") {
                None => false,
                Some(Json::Null) => false,
                Some(_) => true,
            };
            if failed {
                Incoming::Response { id, result: None }
            } else {
                let result = match take_slot(j, 3, "result") {
                    Some(v) => v,
                    None => Json::Null,
                };
                Incoming::Response { id, result: Some(result) }
            }
        },
        (Some(m), _) => {
            let params = match take_slot(j, 2, "params") {
                Some(p) => p,
                None => Json::Null,
            };
            if same_text(m.as_str(), "item/agentMessage/delta") {
                read_delta(&params)
            } else if same_text(m.as_str(), "item/completed") {
                read_completed(&params)
            } else if same_text(m.as_str(), "turn/completed") {
                read_turn(&params)
            } else {
                Incoming::Other
            }
        },
        _ => Incoming::Other,
    }
}

/// The fields of a message.
pub open spec fn message_shape() -> ShapeView {
    ShapeView::Record(
        seq![
            any_named("id"@),
            any_named("method"@),
            any_named("params"@),
            any_named("result"@),
            any_named("error"@),
        ],
    )
}

/// The fields of a message.
fn message_fields() -> (r: Shape)
    ensures
        r@ == message_shape(),
{
    let mut v: Vec<Field> = Vec::new();
    v.push(any_field("id"));
    v.push(any_field("method"));
    v.push(any_field("params"));
    v.push(any_field("result"));
    v.push(any_field("error"));
    let r = Shape::Record(v);
    assert(r@->Record_0 =~= message_shape()->Record_0);
    r
}

/// Reads one text frame. Never fails: what is not consumed is [`Incoming::Other`]. A
/// message that gives one of its fields twice is not consumed; what else it holds is
/// passed over.
pub fn parse_incoming(raw: &str) -> (r: Incoming)
    ensures
        r@ == (match shaped(raw@, message_shape()) {
            Some(j) => message(j),
            None => IncomingView::Other,
        }),
{
    match read_shaped(raw, &message_fields()) {
        Some(j) => read_message(j),
        None => Incoming::Other,
    }
}

// ── Results of our requests ──────────────────────────────────────────────────

/// The texts in a list, in order.
pub open spec fn list_texts(v: Seq<JsonView>) -> Seq<Seq<char>>
    decreases v.len(),
{
    if v.len() == 0 {
        Seq::empty()
    } else {
        match as_text(v.last()) {
            Some(s) => list_texts(v.drop_last()).push(s),
            None => list_texts(v.drop_last()),
        }
    }
}

/// The thread ids in the reply to a request for the loaded threads.
pub open spec fn loaded_ids(result: JsonView) -> Seq<Seq<char>> {
    match field_of(result, "data"@) {
        Some(JsonView::List(v)) => list_texts(v),
        _ => Seq::empty(),
    }
}

/// The session id that the reply to a resume reports.
pub open spec fn reported_session(result: JsonView) -> Option<Seq<char>> {
    match field_of(result, "thread"@) {
        Some(t) => match field_of(t, "sessionId"@) {
            Some(s) => as_text(s),
            None => None,
        },
        None => None,
    }
}

/// The loaded thread ids; what is malformed reads as none.
pub fn loaded_thread_ids(result: &Json) -> (r: Vec<String>)
    ensures
        texts(r@) == loaded_ids(result@),
{
    let mut out: Vec<String> = Vec::new();
    match field(result, "data") {
        Some(Json::List(v)) => {
            let ghost all = Json::List(*v)@->List_0;
            let mut i: usize = 0;
            assert(all.take(0) =~= Seq::empty());
            assert(texts(out@) =~= list_texts(all.take(0)));
            while i < v.len()
                invariant
                    i <= v.len(),
                    all == Json::List(*v)@->List_0,
                    texts(out@) == list_texts(all.take(i as int)),
                decreases v.len() - i,
            {
                assert(all.take(i + 1).drop_last() =~= all.take(i as int));
                assert(all.take(i + 1).last() == v@[i as int]@);
                match &v[i] {
                    Json::Text(s) => {
                        let ghost before = texts(out@);
                        out.push(s.as_str().to_owned());
                        assert(texts(out@) =~= before.push(s@));
                    },
                    _ => {},
                }
                i += 1;
            }
            assert(all.take(i as int) =~= all);
        },
        _ => {
            assert(texts(out@) =~= Seq::empty());
        },
    }
    out
}

/// The session id that the server reports for a resumed thread, where it does.
pub fn resumed_session_id(result: &Json) -> (r: Option<String>)
    ensures
        text_opt(r) == reported_session(result@),
{
    match field(result, "thread") {
        Some(t) => read_required(field(t, "sessionId")),
        None => None,
    }
}

// ── Laws ─────────────────────────────────────────────────────────────────────

/// An entry of an object of up to three entries.
proof fn lemma_entries(v: Seq<(Seq<char>, JsonView)>, name: Seq<char>)
    requires
        v.len() <= 3,
    ensures
        entry_of(v, name) == (if v.len() > 0 && v[0].0 == name {
            Some(v[0].1)
        } else if v.len() > 1 && v[1].0 == name {
            Some(v[1].1)
        } else if v.len() > 2 && v[2].0 == name {
            Some(v[2].1)
        } else {
            None
        }),
{
    reveal_with_fuel(entry_of, 4);
}

proof fn lemma_names_differ()
    ensures
        "id"@ != "method"@ && "id"@ != "params"@ && "id"@ != "result"@ && "id"@ != "error"@,
        "method"@ != "params"@ && "method"@ != "result"@ && "method"@ != "error"@,
        "result"@ != "error"@,
        "threadId"@ != "itemId"@ && "threadId"@ != "delta"@ && "itemId"@ != "delta"@,
        "threadId"@ != "item"@,
        "type"@ != "id"@ && "type"@ != "text"@ && "id"@ != "text"@,
        "item/agentMessage/delta"@ != "item/completed"@,
        "item/agentMessage/delta"@ != "turn/completed"@,
        "item/completed"@ != "turn/completed"@,
{
    reveal_strlit("id");
    reveal_strlit("method");
    reveal_strlit("params");
    reveal_strlit("result");
    reveal_strlit("error");
    reveal_strlit("threadId");
    reveal_strlit("itemId");
    reveal_strlit("item");
    reveal_strlit("delta");
    reveal_strlit("type");
    reveal_strlit("text");
    reveal_strlit("item/agentMessage/delta");
    reveal_strlit("item/completed");
    reveal_strlit("turn/completed");
    assert("id"@[0] != "method"@[0] && "id"@[0] != "params"@[0] && "id"@[0] != "result"@[0]
        && "id"@[0] != "error"@[0]);
    assert("method"@[0] != "params"@[0] && "method"@[0] != "result"@[0] && "method"@[0]
        != "error"@[0]);
    assert("result"@[0] != "error"@[0]);
    assert("threadId"@[0] != "itemId"@[0] && "threadId"@[0] != "delta"@[0] && "itemId"@[0]
        != "delta"@[0]);
    assert("threadId"@[0] != "item"@[0]);
    assert("type"@[0] != "id"@[0] && "type"@[1] != "text"@[1] && "id"@[0] != "text"@[0]);
    assert("item/agentMessage/delta"@[5] != "item/completed"@[5]);
    assert("item/agentMessage/delta"@[0] != "turn/completed"@[0]);
    assert("item/completed"@[0] != "turn/completed"@[0]);
}

/// A notification as it is written: a method and its parameters.
pub open spec fn notice(method: Seq<char>, params: JsonView) -> JsonView {
    JsonView::Object(seq![("method"@, JsonView::Text(method)), ("params"@, params)])
}

proof fn lemma_notice(method: Seq<char>, params: JsonView)
    ensures
        message(notice(method, params)) == notification(method, params),
{
    lemma_names_differ();
    let v = notice(method, params)->Object_0;
    lemma_entries(v, "id"@);
    lemma_entries(v, "method"@);
    lemma_entries(v, "params"@);
}

/// A streamed piece is taken as it was written: for every thread, item and text the
/// message that carries them says that thread, that item and that very text.
pub proof fn law_piece_is_read_as_written(thread: Seq<char>, item: Seq<char>, text: Seq<char>)
    ensures
        message(
            notice(
                "item/agentMessage/delta"@,
                JsonView::Object(
                    seq![
                        ("threadId"@, JsonView::Text(thread)),
                        ("itemId"@, JsonView::Text(item)),
                        ("delta"@, JsonView::Text(text)),
                    ],
                ),
            ),
        ) == (IncomingView::AgentMessageDelta { thread_id: thread, item_id: item, delta: text }),
{
    lemma_names_differ();
    let params = JsonView::Object(
        seq![
            ("threadId"@, JsonView::Text(thread)),
            ("itemId"@, JsonView::Text(item)),
            ("delta"@, JsonView::Text(text)),
        ],
    );
    lemma_notice("item/agentMessage/delta"@, params);
    lemma_entries(params->Object_0, "threadId"@);
    lemma_entries(params->Object_0, "itemId"@);
    lemma_entries(params->Object_0, "delta"@);
}

/// A completed message of the assistant is taken as it was written; a completed item of
/// another kind, or without a name, is passed over.
pub proof fn law_completed_message_is_read_as_written(
    thread: Seq<char>,
    kind: Seq<char>,
    item: Seq<char>,
    text: Seq<char>,
)
    ensures
        message(
            notice(
                "item/completed"@,
                JsonView::Object(
                    seq![
                        ("threadId"@, JsonView::Text(thread)),
                        (
                            "item"@,
                            JsonView::Object(
                                seq![
                                    ("type"@, JsonView::Text(kind)),
                                    ("id"@, JsonView::Text(item)),
                                    ("text"@, JsonView::Text(text)),
                                ],
                            ),
                        ),
                    ],
                ),
            ),
        ) == (if kind == "agentMessage"@ && item.len() > 0 {
            IncomingView::AgentMessageCompleted { thread_id: thread, item_id: item, text }
        } else {
            IncomingView::Other
        }),
{
    lemma_names_differ();
    let inner = JsonView::Object(
        seq![
            ("type"@, JsonView::Text(kind)),
            ("id"@, JsonView::Text(item)),
            ("text"@, JsonView::Text(text)),
        ],
    );
    let params = JsonView::Object(
        seq![("threadId"@, JsonView::Text(thread)), ("item"@, inner)],
    );
    lemma_notice("item/completed"@, params);
    lemma_entries(params->Object_0, "threadId"@);
    lemma_entries(params->Object_0, "item"@);
    lemma_entries(inner->Object_0, "type"@);
    lemma_entries(inner->Object_0, "id"@);
    lemma_entries(inner->Object_0, "text"@);
}

/// The end of a turn is that of the thread that it names; a notification that is not known
/// is passed over, whatever it holds.
pub proof fn law_turn_ends_as_written(thread: Seq<char>, method: Seq<char>, params: JsonView)
    ensures
        message(
            notice(
                "turn/completed"@,
                JsonView::Object(seq![("threadId"@, JsonView::Text(thread))]),
            ),
        ) == (IncomingView::TurnCompleted { thread_id: thread }),
        method != "item/agentMessage/delta"@ && method != "item/completed"@ && method
            != "turn/completed"@ ==> message(notice(method, params)) == IncomingView::Other,
{
    lemma_names_differ();
    let p = JsonView::Object(seq![("threadId"@, JsonView::Text(thread))]);
    lemma_notice("turn/completed"@, p);
    lemma_entries(p->Object_0, "threadId"@);
    lemma_notice(method, params);
}

/// A reply answers the request with its number: with its result, or with none where it is
/// an error.
pub proof fn law_reply_is_read_as_written(id: i64, result: JsonView, error: JsonView)
    ensures
        message(JsonView::Object(seq![("id"@, JsonView::Int(id)), ("result"@, result)])) == (
        IncomingView::Response { id, result: Some(result) }),
        !(error is Null) ==> message(
            JsonView::Object(seq![("id"@, JsonView::Int(id)), ("error"@, error)]),
        ) == (IncomingView::Response { id, result: None }),
        message(JsonView::Object(seq![("result"@, result)])) == IncomingView::Other,
{
    lemma_names_differ();
    let a = seq![("id"@, JsonView::Int(id)), ("result"@, result)];
    let b = seq![("id"@, JsonView::Int(id)), ("error"@, error)];
    let c = seq![("result"@, result)];
    lemma_entries(a, "id"@);
    lemma_entries(a, "method"@);
    lemma_entries(a, "result"@);
    lemma_entries(a, "error"@);
    lemma_entries(b, "id"@);
    lemma_entries(b, "method"@);
    lemma_entries(b, "error"@);
    lemma_entries(c, "id"@);
    lemma_entries(c, "method"@);
}

/// A message that is written as a list holds its number, its method, its parameters, its
/// result and its error in this order.
pub proof fn law_message_as_a_list(id: i64, method: Seq<char>, params: JsonView, result: JsonView)
    ensures
        message(
            JsonView::List(seq![JsonView::Int(id), JsonView::Null, JsonView::Null, result]),
        ) == (IncomingView::Response { id, result: Some(result) }),
        message(
            JsonView::List(seq![JsonView::Null, JsonView::Text(method), params]),
        ) == notification(method, params),
{
}

/// What is asked of the server names the method, the number and the thread that it is
/// about: the reply with that number answers it.
pub proof fn law_requests_name_what_they_ask(method: Seq<char>, id: i64, thread: Seq<char>)
    ensures
        thread_request(method, id, thread) == rendered(
            JsonView::Object(
                seq![
                    ("method"@, JsonView::Text(method)),
                    ("id"@, JsonView::Int(id)),
                    (
                        "params"@,
                        JsonView::Object(seq![("threadId"@, JsonView::Text(thread))]),
                    ),
                ],
            ),
        ),
        list_request(id) == rendered(
            JsonView::Object(
                seq![
                    ("method"@, JsonView::Text("thread/loaded/list"@)),
                    ("id"@, JsonView::Int(id)),
                    ("params"@, JsonView::Object(Seq::empty())),
                ],
            ),
        ),
{
}

/// Nothing that is listened to is opted out of.
pub proof fn law_nothing_listened_to_is_opted_out_of(i: int)
    requires
        0 <= i < opt_out_list().len(),
    ensures
        opt_out_list()[i] != "item/agentMessage/delta"@,
        opt_out_list()[i] != "item/completed"@,
        opt_out_list()[i] != "turn/completed"@,
        opt_out_list().len() == 10,
{
    reveal_strlit("item/reasoning/textDelta");
    reveal_strlit("item/reasoning/summaryTextDelta");
    reveal_strlit("item/reasoning/summaryPartAdded");
    reveal_strlit("item/plan/delta");
    reveal_strlit("item/commandExecution/outputDelta");
    reveal_strlit("item/fileChange/outputDelta");
    reveal_strlit("command/exec/outputDelta");
    reveal_strlit("process/outputDelta");
    reveal_strlit("rawResponseItem/completed");
    reveal_strlit("turn/diff/updated");
    reveal_strlit("item/agentMessage/delta");
    reveal_strlit("item/completed");
    reveal_strlit("turn/completed");
    let m = opt_out_list()[i];
    assert(m.len() != 14 && m.len() != 23);
}

/// The threads that are loaded are the texts of the reply's list, in its order; what is no
/// text is passed over.
pub proof fn law_loaded_threads_are_listed(v: Seq<JsonView>, s: Seq<char>, j: JsonView)
    requires
        !(j is Text),
    ensures
        list_texts(Seq::empty()) == Seq::<Seq<char>>::empty(),
        list_texts(v.push(JsonView::Text(s))) == list_texts(v).push(s),
        list_texts(v.push(j)) == list_texts(v),
        loaded_ids(JsonView::Object(seq![("data"@, JsonView::List(v))])) == list_texts(v),
        loaded_ids(JsonView::Null) == Seq::<Seq<char>>::empty(),
        reported_session(
            JsonView::Object(
                seq![
                    ("thread"@, JsonView::Object(seq![("sessionId"@, JsonView::Text(s))])),
                ],
            ),
        ) == Some(s),
{
    assert(v.push(JsonView::Text(s)).drop_last() =~= v);
    assert(v.push(j).drop_last() =~= v);
    lemma_entries(seq![("data"@, JsonView::List(v))], "data"@);
    let t = JsonView::Object(seq![("sessionId"@, JsonView::Text(s))]);
    lemma_entries(seq![("thread"@, t)], "thread"@);
    lemma_entries(t->Object_0, "sessionId"@);
}

} // verus!
