//! The lines of a session's updates file: one JSON notification each.
//!
//! A spoken delta is an `agent_message_chunk` whose content is text. Thoughts, tool
//! calls and what the user wrote are passed over.

use crate::json::{
    can_be_record, entry_of, is_record, json_ref, optional_text, present, read_optional_text, slot, slot_of,
    text_or_nothing, Json, JsonView,
};
use crate::record::{
    aliased_field, any_field, any_named, given, holds_record, holds_text, lemma_record_of, parts_of,
    read_shaped, shaped, shaped_field, Field, FieldView, PartsView, Shape, ShapeView,
};
use crate::text::{same_ascii, same_ignoring_ascii_case, same_text, text_opt, trim, trimmed};
use vstd::prelude::*;

verus! {

/// One delta of the agent's message.
#[derive(Debug, PartialEq, Eq)]
pub struct AgentTextChunk {
    /// The session that the line names.
    pub session_id: Option<String>,
    /// The prompt that the delta answers.
    pub prompt_id: Option<String>,
    /// The delta.
    pub text: String,
}

/// An [`AgentTextChunk`] by its characters.
pub struct ChunkView {
    pub session_id: Option<Seq<char>>,
    pub prompt_id: Option<Seq<char>>,
    pub text: Seq<char>,
}

impl View for AgentTextChunk {
    type V = ChunkView;

    open spec fn view(&self) -> ChunkView {
        ChunkView {
            session_id: text_opt(self.session_id),
            prompt_id: text_opt(self.prompt_id),
            text: self.text@,
        }
    }
}

// ── The records of a line ────────────────────────────────────────────────────

/// Whether `c` is the content of an update.
pub open spec fn content_ok(c: JsonView) -> bool {
    &&& is_record(c, 2)
    &&& text_or_nothing(slot_of(c, 0, "type"@))
    &&& text_or_nothing(slot_of(c, 1, "text"@))
}

/// Whether `u` is an update.
pub open spec fn update_ok(u: JsonView) -> bool {
    &&& is_record(u, 2)
    &&& text_or_nothing(slot_of(u, 0, "sessionUpdate"@))
    &&& present(slot_of(u, 1, "content"@)) is Some ==> content_ok(
        present(slot_of(u, 1, "content"@))->0,
    )
}

/// Whether `m` is an update's meta data.
pub open spec fn meta_ok(m: JsonView) -> bool {
    is_record(m, 1) && text_or_nothing(slot_of(m, 0, "promptId"@))
}

/// Whether `p` are a notification's parameters.
pub open spec fn params_ok(p: JsonView) -> bool {
    &&& is_record(p, 3)
    &&& text_or_nothing(slot_of(p, 0, "sessionId"@))
    &&& present(slot_of(p, 1, "update"@)) is Some ==> update_ok(
        present(slot_of(p, 1, "update"@))->0,
    )
    &&& present(slot_of(p, 2, "_meta"@)) is Some ==> meta_ok(
        present(slot_of(p, 2, "_meta"@))->0,
    )
}

/// Whether `l` is a notification.
pub open spec fn line_ok(l: JsonView) -> bool {
    &&& is_record(l, 2)
    &&& text_or_nothing(slot_of(l, 0, "method"@))
    &&& present(slot_of(l, 1, "params"@)) is Some ==> params_ok(
        present(slot_of(l, 1, "params"@))->0,
    )
}

/// The trimmed text of an optional field; nothing where only space is left.
pub open spec fn nonblank(s: Option<Seq<char>>) -> Option<Seq<char>> {
    match s {
        Some(t) => if trim(t).len() > 0 {
            Some(trim(t))
        } else {
            None
        },
        None => None,
    }
}

/// The spoken text of an update: that of a message chunk whose content is text (or
/// does not say what it is).
pub open spec fn spoken_of(update: JsonView) -> Option<Seq<char>> {
    let event = optional_text(slot_of(update, 0, "sessionUpdate"@));
    match present(slot_of(update, 1, "content"@)) {
        Some(content) => {
            let kind = optional_text(slot_of(content, 0, "type"@));
            let text = optional_text(slot_of(content, 1, "text"@));
            if event is Some && trim(event->0) == "agent_message_chunk"@ && (kind is Some
                ==> same_ascii(kind->0, "text"@)) && text is Some && text->0.len() > 0 {
                text
            } else {
                None
            }
        },
        None => None,
    }
}

/// Whether a method is the one that carries session updates.
pub open spec fn is_update_method(m: Seq<char>) -> bool {
    trim(m) == "session/update"@ || trim(m) == "_x.ai/session/update"@
}

/// The delta that a notification carries, if it carries one.
pub open spec fn chunk_of(l: JsonView) -> Option<ChunkView> {
    if !line_ok(l) {
        None
    } else {
        match (optional_text(slot_of(l, 0, "method"@)), present(slot_of(l, 1, "params"@))) {
            (Some(method), Some(params)) => match present(slot_of(params, 1, "update"@)) {
                Some(update) => match spoken_of(update) {
                    Some(text) => if is_update_method(method) {
                        Some(
                            ChunkView {
                                session_id: nonblank(
                                    optional_text(
                                        slot_of(params, 0, "sessionId"@),
                                    ),
                                ),
                                prompt_id: match present(slot_of(params, 2, "_meta"@)) {
                                    Some(meta) => nonblank(
                                        optional_text(
                                            slot_of(meta, 0, "promptId"@),
                                        ),
                                    ),
                                    None => None,
                                },
                                text,
                            },
                        )
                    } else {
                        None
                    },
                    None => None,
                },
                None => None,
            },
            _ => None,
        }
    }
}

/// The fields of an update's content.
pub open spec fn content_shape() -> ShapeView {
    ShapeView::Record(seq![any_named("type"@), any_named("text"@)])
}

/// The fields of an update.
pub open spec fn update_shape() -> ShapeView {
    ShapeView::Record(
        seq![
            FieldView {
                name: "sessionUpdate"@,
                alias: "session_update"@,
                shape: ShapeView::Any,
            },
            FieldView { name: "content"@, alias: "content"@, shape: content_shape() },
        ],
    )
}

/// The fields of an update's meta data.
pub open spec fn meta_shape() -> ShapeView {
    ShapeView::Record(
        seq![FieldView { name: "promptId"@, alias: "prompt_id"@, shape: ShapeView::Any }],
    )
}

/// The fields of a notification's parameters.
pub open spec fn params_shape() -> ShapeView {
    ShapeView::Record(
        seq![
            FieldView { name: "sessionId"@, alias: "session_id"@, shape: ShapeView::Any },
            FieldView { name: "update"@, alias: "update"@, shape: update_shape() },
            FieldView { name: "_meta"@, alias: "_meta"@, shape: meta_shape() },
        ],
    )
}

/// The fields of a notification.
pub open spec fn line_shape() -> ShapeView {
    ShapeView::Record(
        seq![
            any_named("method"@),
            FieldView { name: "params"@, alias: "params"@, shape: params_shape() },
        ],
    )
}

/// The fields of an update.
fn update_fields() -> (r: Shape)
    ensures
        r@ == update_shape(),
{
    let mut content: Vec<Field> = Vec::new();
    content.push(any_field("type"));
    content.push(any_field("text"));
    let content = Shape::Record(content);
    assert(content@->Record_0 =~= content_shape()->Record_0);
    let mut v: Vec<Field> = Vec::new();
    v.push(aliased_field("sessionUpdate", "session_update"));
    v.push(shaped_field("content", content));
    let r = Shape::Record(v);
    assert(r@->Record_0 =~= update_shape()->Record_0);
    r
}

/// The fields of a notification.
fn line_fields() -> (r: Shape)
    ensures
        r@ == line_shape(),
{
    let mut meta: Vec<Field> = Vec::new();
    meta.push(aliased_field("promptId", "prompt_id"));
    let meta = Shape::Record(meta);
    assert(meta@->Record_0 =~= meta_shape()->Record_0);
    let mut params: Vec<Field> = Vec::new();
    params.push(aliased_field("sessionId", "session_id"));
    params.push(shaped_field("update", update_fields()));
    params.push(shaped_field("_meta", meta));
    let params = Shape::Record(params);
    assert(params@->Record_0 =~= params_shape()->Record_0);
    let mut v: Vec<Field> = Vec::new();
    v.push(any_field("method"));
    v.push(shaped_field("params", params));
    let r = Shape::Record(v);
    assert(r@->Record_0 =~= line_shape()->Record_0);
    r
}

/// The delta that a line carries, if it carries one.
pub open spec fn line_chunk(line: Seq<char>) -> Option<ChunkView> {
    let t = trim(line);
    if t.len() == 0 {
        None
    } else {
        match shaped(t, line_shape()) {
            Some(l) => chunk_of(l),
            None => None,
        }
    }
}

/// What an optional record holds: nothing where it is missing or null.
fn present_slot<'a>(j: &'a Json, pos: usize, name: &str) -> (r: Option<&'a Json>)
    ensures
        json_ref(r) == present(slot_of(j@, pos as int, name@)),
{
    match slot(j, pos, name) {
        Some(Json::Null) => None,
        Some(v) => Some(v),
        None => None,
    }
}

/// Trims an optional text; nothing where only space is left.
fn keep_nonblank(s: Option<String>) -> (r: Option<String>)
    ensures
        text_opt(r) == nonblank(text_opt(s)),
{
    match s {
        Some(t) => {
            let t = trimmed(t.as_str());
            if t.as_str().unicode_len() > 0 {
                Some(t)
            } else {
                None
            }
        },
        None => None,
    }
}

/// Reads the content of an update: its type and its text; `None` where it is not well
/// formed.
fn read_content(c: &Json) -> (r: Option<(Option<String>, Option<String>)>)
    ensures
        r is Some <==> content_ok(c@),
        r matches Some((kind, text)) ==> text_opt(kind) == optional_text(
            slot_of(c@, 0, "type"@),
        ) && text_opt(text) == optional_text(slot_of(c@, 1, "text"@)),
{
    if !can_be_record(c, 2) {
        return None;
    }
    match (read_optional_text(slot(c, 0, "type")), read_optional_text(slot(c, 1, "text"))) {
        (Some(kind), Some(text)) => Some((kind, text)),
        _ => None,
    }
}

/// Reads an update: its spoken text, if it has any; `None` where it is not well formed.
fn read_update(u: &Json) -> (r: Option<Option<String>>)
    ensures
        r is Some <==> update_ok(u@),
        r is Some ==> text_opt(r->0) == spoken_of(u@),
{
    if !can_be_record(u, 2) {
        return None;
    }
    let event = match read_optional_text(slot(u, 0, "sessionUpdate")) {
        Some(event) => event,
        None => {
            return None;
        },
    };
    let (kind, text) = match present_slot(u, 1, "content") {
        Some(c) => match read_content(c) {
            Some(content) => content,
            None => {
                return None;
            },
        },
        None => {
            return Some(None);
        },
    };
    let is_chunk = match &event {
        Some(e) => same_text(trimmed(e.as_str()).as_str(), "agent_message_chunk"),
        None => false,
    };
    let is_text = match &kind {
        Some(k) => same_ignoring_ascii_case(k.as_str(), "text"),
        None => true,
    };
    match text {
        Some(t) => if is_chunk && is_text && t.as_str().unicode_len() > 0 {
            Some(Some(t))
        } else {
            Some(None)
        },
        None => Some(None),
    }
}

/// Reads the meta data of an update: its prompt id; `None` where it is not well formed.
fn read_meta(m: &Json) -> (r: Option<Option<String>>)
    ensures
        r is Some <==> meta_ok(m@),
        r is Some ==> text_opt(r->0) == optional_text(
            slot_of(m@, 0, "promptId"@),
        ),
{
    if !can_be_record(m, 1) {
        return None;
    }
    read_optional_text(slot(m, 0, "promptId"))
}

/// The delta that parsed parameters carry, if they carry one; `None` where they are not
/// well formed.
fn read_params(p: &Json) -> (r: Option<Option<AgentTextChunk>>)
    ensures
        r is Some <==> params_ok(p@),
        r is Some ==> (match present(slot_of(p@, 1, "update"@)) {
            Some(update) => match spoken_of(update) {
                Some(text) => r->0 is Some && r->0->0@ == (ChunkView {
                    session_id: nonblank(
                        optional_text(slot_of(p@, 0, "sessionId"@)),
                    ),
                    prompt_id: match present(slot_of(p@, 2, "_meta"@)) {
                        Some(meta) => nonblank(
                            optional_text(slot_of(meta, 0, "promptId"@)),
                        ),
                        None => None,
                    },
                    text,
                }),
                None => r->0 is None,
            },
            None => r->0 is None,
        }),
{
    if !can_be_record(p, 3) {
        return None;
    }
    let session = match read_optional_text(slot(p, 0, "sessionId")) {
        Some(session) => session,
        None => {
            return None;
        },
    };
    let spoken = match present_slot(p, 1, "update") {
        Some(u) => match read_update(u) {
            Some(spoken) => spoken,
            None => {
                return None;
            },
        },
        None => None,
    };
    let prompt = match present_slot(p, 2, "_meta") {
        Some(m) => match read_meta(m) {
            Some(prompt) => prompt,
            None => {
                return None;
            },
        },
        None => None,
    };
    match spoken {
        Some(text) => Some(
            Some(
                AgentTextChunk {
                    session_id: keep_nonblank(session),
                    prompt_id: keep_nonblank(prompt),
                    text,
                },
            ),
        ),
        None => Some(None),
    }
}

/// The delta that a line carries whose fields were read, if it carries one. A line whose
/// known fields are not of their types carries none.
pub fn chunk_in(l: &Json) -> (r: Option<AgentTextChunk>)
    ensures
        r is Some <==> chunk_of(l@) is Some,
        r is Some ==> r->0@ == chunk_of(l@)->0,
{
    if !can_be_record(l, 2) {
        return None;
    }
    let method = match read_optional_text(slot(l, 0, "method")) {
        Some(method) => method,
        None => {
            return None;
        },
    };
    let chunk = match present_slot(l, 1, "params") {
        Some(p) => match read_params(p) {
            Some(chunk) => chunk,
            None => {
                return None;
            },
        },
        None => None,
    };
    let is_update = match &method {
        Some(m) => {
            let m = trimmed(m.as_str());
            same_text(m.as_str(), "session/update") || same_text(
                m.as_str(),
                "_x.ai/session/update",
            )
        },
        None => false,
    };
    if is_update {
        chunk
    } else {
        None
    }
}

/// The delta that a line of the updates file carries, if it carries one. A line that
/// gives one of its fields twice, be it under both of its names, carries none; what else
/// it holds is passed over.
pub fn parse_agent_text_chunk(line: &str) -> (r: Option<AgentTextChunk>)
    ensures
        r is Some <==> line_chunk(line@) is Some,
        r is Some ==> r->0@ == line_chunk(line@)->0,
{
    let line = trimmed(line);
    if line.as_str().unicode_len() == 0 {
        return None;
    }
    match read_shaped(line.as_str(), &line_fields()) {
        Some(l) => chunk_in(&l),
        None => None,
    }
}

/// The item that a delta belongs to: its prompt, else the session.
pub open spec fn batch_key_of(chunk: ChunkView, session: Seq<char>) -> Seq<char> {
    match chunk.prompt_id {
        Some(p) => p,
        None => session,
    }
}

/// The item that a delta belongs to: its prompt, else the session.
pub fn batch_key(chunk: &AgentTextChunk, session: &str) -> (r: String)
    ensures
        r@ == batch_key_of(chunk@, session@),
{
    match &chunk.prompt_id {
        Some(p) => p.as_str().to_owned(),
        None => session.to_owned(),
    }
}

/// A delta always has text, and a prompt or session that it names is never blank.
pub proof fn law_chunks_are_not_blank(line: Seq<char>)
    ensures
        line_chunk(line) matches Some(c) ==> {
            &&& c.text.len() > 0
            &&& c.prompt_id is Some ==> c.prompt_id->0.len() > 0
            &&& c.session_id is Some ==> c.session_id->0.len() > 0
        },
{
}

/// What a delta hands on is the text of the line's content, character for character,
/// white space included.
pub proof fn law_delta_is_the_text_of_the_line(l: JsonView)
    ensures
        chunk_of(l) matches Some(c) ==> {
            let params = slot_of(l, 1, "params"@)->0;
            let update = slot_of(params, 1, "update"@)->0;
            let content = slot_of(update, 1, "content"@)->0;
            slot_of(content, 1, "text"@) == Some(JsonView::Text(c.text))
        },
{
}

/// A notification of a message chunk in JSON.
pub open spec fn chunk_line(
    method: Seq<char>,
    session: Seq<char>,
    prompt: Seq<char>,
    event: Seq<char>,
    text: Seq<char>,
) -> JsonView {
    JsonView::Object(
        seq![
            ("method"@, JsonView::Text(method)),
            (
                "params"@,
                JsonView::Object(
                    seq![
                        ("sessionId"@, JsonView::Text(session)),
                        (
                            "update"@,
                            JsonView::Object(
                                seq![
                                    ("sessionUpdate"@, JsonView::Text(event)),
                                    (
                                        "content"@,
                                        JsonView::Object(
                                            seq![
                                                ("type"@, JsonView::Text("text"@)),
                                                ("text"@, JsonView::Text(text)),
                                            ],
                                        ),
                                    ),
                                ],
                            ),
                        ),
                        (
                            "_meta"@,
                            JsonView::Object(seq![("promptId"@, JsonView::Text(prompt))]),
                        ),
                    ],
                ),
            ),
        ],
    )
}

/// An entry of a short object.
proof fn lemma_entries(v: Seq<(Seq<char>, JsonView)>, name: Seq<char>)
    requires
        v.len() <= 3,
    ensures
        entry_of(v, name) == (if v.len() > 0 && v[0].0 == name {
            Some(v[0].1)
        } else if v.len() > 1 && v[1].0 == name {
            Some(v[1].1)
        } else if v.len() > 2 && v[2].0 == name {
            Some(v[2].1)
        } else {
            None
        }),
{
    reveal_with_fuel(entry_of, 4);
}

proof fn lemma_names_differ()
    ensures
        "method"@ != "params"@,
        "sessionId"@ != "update"@,
        "sessionId"@ != "_meta"@,
        "update"@ != "_meta"@,
        "sessionUpdate"@ != "content"@,
        "type"@ != "text"@,
{
    reveal_strlit("method");
    reveal_strlit("params");
    reveal_strlit("sessionId");
    reveal_strlit("update");
    reveal_strlit("_meta");
    reveal_strlit("sessionUpdate");
    reveal_strlit("content");
    reveal_strlit("type");
    reveal_strlit("text");
    assert("method"@[0] != "params"@[0]);
    assert("sessionId"@[0] != "update"@[0]);
    assert("sessionId"@[0] != "_meta"@[0]);
    assert("update"@[0] != "_meta"@[0]);
    assert("sessionUpdate"@[0] != "content"@[0]);
    assert("type"@[1] != "text"@[1]);
}

/// A message chunk is handed on as it was written: for every session, prompt and text, the
/// delta of the notification that carries them names that session and that prompt,
/// trimmed and left out where they are blank, and holds that very text; without text
/// there is no delta. A notification of another kind, or of another method, carries none.
pub proof fn law_chunk_is_read_as_written(
    method: Seq<char>,
    session: Seq<char>,
    prompt: Seq<char>,
    event: Seq<char>,
    text: Seq<char>,
)
    ensures
        ({
            let c = chunk_of(chunk_line(method, session, prompt, event, text));
            let ours = (trim(method) == "session/update"@ || trim(method)
                == "_x.ai/session/update"@) && trim(event) == "agent_message_chunk"@;
            &&& c is Some <==> ours && text.len() > 0
            &&& c is Some ==> c->0.text == text
            &&& c is Some ==> c->0.session_id == (if trim(session).len() > 0 {
                Some(trim(session))
            } else {
                None
            })
            &&& c is Some ==> c->0.prompt_id == (if trim(prompt).len() > 0 {
                Some(trim(prompt))
            } else {
                None
            })
        }),
{
    lemma_names_differ();
    let l = chunk_line(method, session, prompt, event, text);
    lemma_entries(l->Object_0, "method"@);
    lemma_entries(l->Object_0, "params"@);
    let params = slot_of(l, 1, "params"@)->0;
    lemma_entries(params->Object_0, "sessionId"@);
    lemma_entries(params->Object_0, "update"@);
    lemma_entries(params->Object_0, "_meta"@);
    let meta = slot_of(params, 2, "_meta"@)->0;
    lemma_entries(meta->Object_0, "promptId"@);
    let update = slot_of(params, 1, "update"@)->0;
    lemma_entries(update->Object_0, "sessionUpdate"@);
    lemma_entries(update->Object_0, "content"@);
    let content = slot_of(update, 1, "content"@)->0;
    lemma_entries(content->Object_0, "type"@);
    lemma_entries(content->Object_0, "text"@);
}

/// The texts that notifications hand on, joined.
pub open spec fn handed_on(lines: Seq<JsonView>) -> Seq<char>
    decreases lines.len(),
{
    if lines.len() == 0 {
        Seq::empty()
    } else {
        handed_on(lines.drop_last()) + (match chunk_of(lines.last()) {
            Some(c) => c.text,
            None => Seq::empty(),
        })
    }
}

/// Texts joined without anything between them.
pub open spec fn run_together(texts: Seq<Seq<char>>) -> Seq<char>
    decreases texts.len(),
{
    if texts.len() == 0 {
        Seq::empty()
    } else {
        run_together(texts.drop_last()) + texts.last()
    }
}

/// The deltas of a message make up the message: however it was cut into chunks, what the
/// notifications hand on is its text, with nothing added and nothing taken away.
pub proof fn law_message_is_handed_on_whole(
    session: Seq<char>,
    prompt: Seq<char>,
    texts: Seq<Seq<char>>,
)
    ensures
        handed_on(
            Seq::new(
                texts.len(),
                |i: int|
                    chunk_line(
                        "session/update"@,
                        session,
                        prompt,
                        "agent_message_chunk"@,
                        texts[i],
                    ),
            ),
        ) == run_together(texts),
    decreases texts.len(),
{
    let line = |i: int|
        chunk_line("session/update"@, session, prompt, "agent_message_chunk"@, texts[i]);
    let lines = Seq::new(texts.len(), line);
    if texts.len() > 0 {
        let front = texts.drop_last();
        law_message_is_handed_on_whole(session, prompt, front);
        assert(lines.drop_last() =~= Seq::new(
            front.len(),
            |i: int|
                chunk_line(
                    "session/update"@,
                    session,
                    prompt,
                    "agent_message_chunk"@,
                    front[i],
                ),
        ));
        reveal_strlit("session/update");
        reveal_strlit("agent_message_chunk");
        assert(trim("session/update"@) == "session/update"@);
        assert(trim("agent_message_chunk"@) == "agent_message_chunk"@);
        law_chunk_is_read_as_written(
            "session/update"@,
            session,
            prompt,
            "agent_message_chunk"@,
            texts.last(),
        );
        assert(lines.last() == chunk_line(
            "session/update"@,
            session,
            prompt,
            "agent_message_chunk"@,
            texts.last(),
        ));
        if texts.last().len() == 0 {
            assert(run_together(front) + texts.last() =~= run_together(front)
                + Seq::<char>::empty());
        }
    }
}

/// A content of another type than text carries no delta; the type is compared without
/// regard to the case of its letters, and may be missing.
pub proof fn law_only_text_is_spoken(update: JsonView)
    ensures
        spoken_of(update) is Some ==> {
            let content = slot_of(update, 1, "content"@)->0;
            match slot_of(content, 0, "type"@) {
                Some(JsonView::Text(k)) => same_ascii(k, "text"@),
                _ => true,
            }
        },
        spoken_of(update) matches Some(t) ==> t.len() > 0,
{
}

/// A line is read by its fields, each under either of its names: where it is an update of
/// a session and its content is text, the delta holds the very text that the line gives,
/// and names the session and the prompt that it gives.
pub proof fn law_line_is_read_by_its_fields(
    line: Seq<char>,
    l: Seq<(Seq<char>, Seq<char>)>,
    p: Seq<(Seq<char>, Seq<char>)>,
    m: Seq<(Seq<char>, Seq<char>)>,
    u: Seq<(Seq<char>, Seq<char>)>,
    c: Seq<(Seq<char>, Seq<char>)>,
    method: Seq<char>,
    session: Seq<char>,
    prompt: Seq<char>,
    event: Seq<char>,
    text: Seq<char>,
)
    requires
        parts_of(trim(line)) == Some(PartsView::Named(l)),
        holds_text(l, "method"@, "method"@, method),
        trim(method) == "session/update"@ || trim(method) == "_x.ai/session/update"@,
        holds_record(l, "params"@, "params"@, p),
        holds_text(p, "sessionId"@, "session_id"@, session),
        holds_record(p, "_meta"@, "_meta"@, m),
        holds_text(m, "promptId"@, "prompt_id"@, prompt),
        holds_record(p, "update"@, "update"@, u),
        holds_text(u, "sessionUpdate"@, "session_update"@, event),
        trim(event) == "agent_message_chunk"@,
        holds_record(u, "content"@, "content"@, c),
        holds_text(c, "type"@, "type"@, "text"@),
        holds_text(c, "text"@, "text"@, text),
        text.len() > 0,
    ensures
        line_chunk(line) == Some(
            ChunkView {
                session_id: if trim(session).len() > 0 {
                    Some(trim(session))
                } else {
                    None
                },
                prompt_id: if trim(prompt).len() > 0 {
                    Some(trim(prompt))
                } else {
                    None
                },
                text,
            },
        ),
{
    let t = trim(line);
    let ct = given(u, "content"@, "content"@)[0];
    let ut = given(p, "update"@, "update"@)[0];
    let mt = given(p, "_meta"@, "_meta"@)[0];
    let pt = given(l, "params"@, "params"@)[0];
    lemma_record_of(ct, c, content_shape()->Record_0);
    assert(shaped(ct, content_shape())->0->Object_0 =~= seq![
        ("type"@, JsonView::Text("text"@)),
        ("text"@, JsonView::Text(text)),
    ]);
    lemma_record_of(ut, u, update_shape()->Record_0);
    assert(shaped(ut, update_shape())->0->Object_0 =~= seq![
        ("sessionUpdate"@, JsonView::Text(event)),
        ("content"@, shaped(ct, content_shape())->0),
    ]);
    lemma_record_of(mt, m, meta_shape()->Record_0);
    assert(shaped(mt, meta_shape())->0->Object_0 =~= seq![("promptId"@, JsonView::Text(prompt))]);
    lemma_record_of(pt, p, params_shape()->Record_0);
    assert(shaped(pt, params_shape())->0->Object_0 =~= seq![
        ("sessionId"@, JsonView::Text(session)),
        ("update"@, shaped(ut, update_shape())->0),
        ("_meta"@, shaped(mt, meta_shape())->0),
    ]);
    lemma_record_of(t, l, line_shape()->Record_0);
    assert(shaped(t, line_shape())->0->Object_0 =~= seq![
        ("method"@, JsonView::Text(method)),
        ("params"@, shaped(pt, params_shape())->0),
    ]);
    assert(t.len() > 0);
    law_chunk_is_read_as_written(method, session, prompt, event, text);
}

/// A line whose known fields are not of their types carries no delta: where one is carried,
/// the line, its parameters, the update, its content and its meta data are records, and
/// each text that they name is a text, null or missing.
pub proof fn law_malformed_lines_carry_nothing(l: JsonView)
    requires
        chunk_of(l) is Some,
    ensures
        ({
            let params = slot_of(l, 1, "params"@)->0;
            let update = slot_of(params, 1, "update"@)->0;
            let content = slot_of(update, 1, "content"@)->0;
            let meta = slot_of(params, 2, "_meta"@);
            &&& is_record(l, 2) && is_record(params, 3) && is_record(update, 2) && is_record(
                content,
                2,
            )
            &&& slot_of(l, 0, "method"@) matches Some(JsonView::Text(_))
            &&& slot_of(params, 0, "sessionId"@) matches Some(j) ==> j is Text || j is Null
            &&& slot_of(update, 0, "sessionUpdate"@) matches Some(JsonView::Text(_))
            &&& slot_of(content, 0, "type"@) matches Some(j) ==> j is Text || j is Null
            &&& meta matches Some(m) ==> m is Null || is_record(m, 1) && (slot_of(
                m,
                0,
                "promptId"@,
            ) matches Some(j) ==> j is Text || j is Null)
        }),
{
}

} // verus!
