//! JSON as plain data, and its fields.

use crate::text::{same_text, text_opt};
use vstd::prelude::*;

verus! {

/// A JSON value. A number is kept by its value where that is an integer of 64 bits, and
/// by its text where it is not.
#[derive(Debug, PartialEq, Eq)]
pub enum Json {
    Null,
    Bool(bool),
    Int(i64),
    Number(String),
    Text(String),
    List(Vec<Json>),
    Object(Vec<(String, Json)>),
}

/// A [`Json`] as a mathematical value.
pub enum JsonView {
    Null,
    Bool(bool),
    Int(i64),
    Number(Seq<char>),
    Text(Seq<char>),
    List(Seq<JsonView>),
    Object(Seq<(Seq<char>, JsonView)>),
}

/// A [`Json`] as a mathematical value.
pub open spec fn json_view(j: Json) -> JsonView
    decreases j,
{
    match j {
        Json::Null => JsonView::Null,
        Json::Bool(b) => JsonView::Bool(b),
        Json::Int(n) => JsonView::Int(n),
        Json::Number(s) => JsonView::Number(s@),
        Json::Text(s) => JsonView::Text(s@),
        Json::List(v) => JsonView::List(
            Seq::new(
                v@.len(),
                |i: int|
                    if 0 <= i < v@.len() {
                        json_view(v@[i])
                    } else {
                        JsonView::Null
                    },
            ),
        ),
        Json::Object(v) => JsonView::Object(
            Seq::new(
                v@.len(),
                |i: int|
                    if 0 <= i < v@.len() {
                        (v@[i].0@, json_view(v@[i].1))
                    } else {
                        (Seq::empty(), JsonView::Null)
                    },
            ),
        ),
    }
}

impl View for Json {
    type V = JsonView;

    open spec fn view(&self) -> JsonView {
        json_view(*self)
    }
}

/// An optional value as a mathematical value.
pub open spec fn json_opt(j: Option<Json>) -> Option<JsonView> {
    match j {
        Some(v) => Some(v@),
        None => None,
    }
}

/// An optional reference to a value as a mathematical value.
pub open spec fn json_ref(j: Option<&Json>) -> Option<JsonView> {
    match j {
        Some(v) => Some(v@),
        None => None,
    }
}

// ── The outside crate ────────────────────────────────────────────────────────

#[verifier::external_type_specification]
#[verifier::external_body]
pub struct ExValue(serde_json::Value);

/// The value that a JSON text stands for, where it is one.
pub uninterp spec fn value_of_text(s: Seq<char>) -> Option<serde_json::Value>;

/// What a value of `serde_json` holds.
pub uninterp spec fn json_of_value(v: serde_json::Value) -> JsonView;

/// The value of `serde_json` that holds plain data.
pub uninterp spec fn value_of_json(j: JsonView) -> serde_json::Value;

/// The compact JSON text of a value.
pub uninterp spec fn text_of_value(v: serde_json::Value) -> Seq<char>;

/// `serde_json::from_str` into a `Value`: whether it succeeds, and with which value,
/// depends on the text alone. The error's wording is not kept.
#[verifier::external_body]
fn parse_value(text: &str) -> (r: Option<serde_json::Value>)
    ensures
        r == value_of_text(text@),
{
    serde_json::from_str(text).ok()
}

/// Takes a `serde_json::Value` apart, variant by variant: `Number::as_i64` keeps the
/// integers that fit, `Number::to_string` keeps the others, and an object's entries come
/// in the order of its map.
#[verifier::external_body]
fn json_of(value: &serde_json::Value) -> (r: Json)
    ensures
        r@ == json_of_value(*value),
{
    match value {
        serde_json::Value::Null => Json::Null,
        serde_json::Value::Bool(b) => Json::Bool(*b),
        serde_json::Value::Number(n) => {
            n.as_i64().map_or_else(|| Json::Number(n.to_string()), Json::Int)
        },
        serde_json::Value::String(s) => Json::Text(s.clone()),
        serde_json::Value::Array(v) => Json::List(v.iter().map(json_of).collect()),
        serde_json::Value::Object(m) => {
            Json::Object(m.iter().map(|(k, v)| (k.clone(), json_of(v))).collect())
        },
    }
}

/// Puts a `serde_json::Value` together, variant by variant. The text of a number is read
/// by `Number::from_str`; one that is none becomes `Value::Null`.
#[verifier::external_body]
fn value_of(json: &Json) -> (r: serde_json::Value)
    ensures
        r == value_of_json(json@),
{
    match json {
        Json::Null => serde_json::Value::Null,
        Json::Number(s) => s.parse().map_or(serde_json::Value::Null, serde_json::Value::Number),
        Json::Bool(b) => serde_json::Value::Bool(*b),
        Json::Int(n) => serde_json::Value::from(*n),
        Json::Text(s) => serde_json::Value::String(s.clone()),
        Json::List(v) => serde_json::Value::Array(v.iter().map(value_of).collect()),
        Json::Object(v) => {
            serde_json::Value::Object(v.iter().map(|(k, v)| (k.clone(), value_of(v))).collect())
        },
    }
}

/// `serde_json::Value`'s `to_string`: the compact text, a function of the value.
#[verifier::external_body]
fn value_text(value: &serde_json::Value) -> (r: String)
    ensures
        r@ == text_of_value(*value),
{
    value.to_string()
}

/// The value that a JSON text stands for, as plain data.
pub open spec fn parsed(s: Seq<char>) -> Option<JsonView> {
    match value_of_text(s) {
        Some(v) => Some(json_of_value(v)),
        None => None,
    }
}

/// The JSON text of plain data.
pub open spec fn rendered(j: JsonView) -> Seq<char> {
    text_of_value(value_of_json(j))
}

/// Reads a JSON text. Where a key occurs twice in an object, its last value counts.
pub fn parse(text: &str) -> (r: Option<Json>)
    ensures
        json_opt(r) == parsed(text@),
{
    match parse_value(text) {
        Some(v) => Some(json_of(&v)),
        None => None,
    }
}

/// Writes a JSON text.
pub fn render(json: &Json) -> (r: String)
    ensures
        r@ == rendered(json@),
{
    value_text(&value_of(json))
}

// ── Making a value ───────────────────────────────────────────────────────────

/// A text.
pub fn text_value(s: &str) -> (r: Json)
    ensures
        r@ == JsonView::Text(s@),
{
    Json::Text(s.to_owned())
}

/// An object without entries.
pub fn empty_object() -> (r: Json)
    ensures
        r@ == JsonView::Object(Seq::empty()),
{
    let r = Json::Object(Vec::new());
    assert(r@->Object_0 =~= Seq::empty());
    r
}

/// An object with one more entry, at its end; anything else stays as it is.
pub fn with_entry(j: Json, name: &str, value: Json) -> (r: Json)
    ensures
        r@ == (match j@ {
            JsonView::Object(v) => JsonView::Object(v.push((name@, value@))),
            other => other,
        }),
{
    match j {
        Json::Object(mut v) => {
            let ghost before = j@->Object_0;
            v.push((name.to_owned(), value));
            let r = Json::Object(v);
            assert(r@->Object_0 =~= before.push((name@, value@)));
            r
        },
        other => other,
    }
}

/// A list of texts.
pub fn text_list(v: &Vec<String>) -> (r: Json)
    ensures
        r@ == JsonView::List(texts_data(crate::text::texts(v@))),
{
    let mut out: Vec<Json> = Vec::new();
    let mut i: usize = 0;
    while i < v.len()
        invariant
            i <= v.len(),
            out@.len() == i,
            forall|k: int| 0 <= k < i ==> (#[trigger] out@[k])@ == JsonView::Text(v@[k]@),
        decreases v.len() - i,
    {
        out.push(text_value(v[i].as_str()));
        i += 1;
    }
    let r = Json::List(out);
    assert(r@->List_0 =~= texts_data(crate::text::texts(v@)));
    r
}

/// Texts as values.
pub open spec fn texts_data(s: Seq<Seq<char>>) -> Seq<JsonView> {
    Seq::new(s.len(), |i: int| JsonView::Text(s[i]))
}

// ── Looking into a value ─────────────────────────────────────────────────────

/// The value of the first entry with the key `name`.
pub open spec fn entry_of(v: Seq<(Seq<char>, JsonView)>, name: Seq<char>) -> Option<JsonView>
    decreases v.len(),
{
    if v.len() == 0 {
        None
    } else if v[0].0 == name {
        Some(v[0].1)
    } else {
        entry_of(v.drop_first(), name)
    }
}

/// The value of the field `name`, where `j` is an object that has it.
pub open spec fn field_of(j: JsonView, name: Seq<char>) -> Option<JsonView> {
    match j {
        JsonView::Object(v) => entry_of(v, name),
        _ => None,
    }
}

/// The text that a value is, where it is one.
pub open spec fn as_text(j: JsonView) -> Option<Seq<char>> {
    match j {
        JsonView::Text(s) => Some(s),
        _ => None,
    }
}

/// Where the first entry with the key `name` stands.
fn entry_at(v: &Vec<(String, Json)>, name: &str) -> (r: Option<usize>)
    ensures
        ({
            let all = Json::Object(*v)@->Object_0;
            match r {
                Some(i) => i < v@.len() && entry_of(all, name@) == Some(v@[i as int].1@),
                None => entry_of(all, name@) is None,
            }
        }),
{
    let ghost all = Json::Object(*v)@->Object_0;
    let mut i: usize = 0;
    assert(all.skip(0) =~= all);
    while i < v.len()
        invariant
            i <= v.len(),
            all == Json::Object(*v)@->Object_0,
            entry_of(all, name@) == entry_of(all.skip(i as int), name@),
        decreases v.len() - i,
    {
        assert(all.skip(i as int)[0] == (v@[i as int].0@, v@[i as int].1@));
        assert(all.skip(i as int).drop_first() =~= all.skip(i + 1));
        if same_text(v[i].0.as_str(), name) {
            return Some(i);
        }
        i += 1;
    }
    None
}

/// The value of the field `name`, where `j` is an object that has it.
pub fn field<'a>(j: &'a Json, name: &str) -> (r: Option<&'a Json>)
    ensures
        json_ref(r) == field_of(j@, name@),
{
    match j {
        Json::Object(v) => match entry_at(v, name) {
            Some(i) => Some(&v[i].1),
            None => None,
        },
        _ => None,
    }
}

// ── Records ──────────────────────────────────────────────────────────────────
//
// A record is written either as an object with named fields or as a list of their
// values in declaration order; a list may be shorter, but not longer.

/// Whether `j` can be a record of `n` fields.
pub open spec fn is_record(j: JsonView, n: int) -> bool {
    match j {
        JsonView::Object(_) => true,
        JsonView::List(v) => v.len() <= n,
        _ => false,
    }
}

/// What a record holds for its field number `pos`, called `name`.
pub open spec fn slot_of(j: JsonView, pos: int, name: Seq<char>) -> Option<JsonView> {
    match j {
        JsonView::Object(v) => entry_of(v, name),
        JsonView::List(v) => if pos < v.len() {
            Some(v[pos])
        } else {
            None
        },
        _ => None,
    }
}

/// Whether `j` can be a record of `n` fields.
pub fn can_be_record(j: &Json, n: usize) -> (r: bool)
    ensures
        r == is_record(j@, n as int),
{
    match j {
        Json::Object(_) => true,
        Json::List(v) => v.len() <= n,
        _ => false,
    }
}

/// What a record holds for its field number `pos`, called `name`.
pub fn slot<'a>(j: &'a Json, pos: usize, name: &str) -> (r: Option<&'a Json>)
    ensures
        json_ref(r) == slot_of(j@, pos as int, name@),
{
    match j {
        Json::Object(_) => field(j, name),
        Json::List(v) => if pos < v.len() {
            Some(&v[pos])
        } else {
            None
        },
        _ => None,
    }
}

/// What an optional field holds: nothing where it is missing or null.
pub open spec fn present(s: Option<JsonView>) -> Option<JsonView> {
    match s {
        Some(JsonView::Null) => None,
        other => other,
    }
}

/// Whether an optional field is missing, null, or a text.
pub open spec fn text_or_nothing(s: Option<JsonView>) -> bool {
    present(s) is Some ==> present(s)->0 is Text
}

/// The text of an optional field.
pub open spec fn optional_text(s: Option<JsonView>) -> Option<Seq<char>> {
    match present(s) {
        Some(j) => as_text(j),
        None => None,
    }
}

/// Reads an optional text field; `None` where it is neither missing, null nor a text.
pub fn read_optional_text(s: Option<&Json>) -> (r: Option<Option<String>>)
    ensures
        r is Some <==> text_or_nothing(json_ref(s)),
        r is Some ==> text_opt(r->0) == optional_text(json_ref(s)),
{
    match s {
        None => Some(None),
        Some(Json::Null) => Some(None),
        Some(Json::Text(t)) => Some(Some(t.as_str().to_owned())),
        Some(_) => None,
    }
}

/// Takes out of a record what it holds for its field number `pos`, called `name`.
pub fn take_slot(j: Json, pos: usize, name: &str) -> (r: Option<Json>)
    ensures
        json_opt(r) == slot_of(j@, pos as int, name@),
{
    match j {
        Json::Object(mut v) => match entry_at(&v, name) {
            Some(i) => {
                let (_, value) = v.remove(i);
                Some(value)
            },
            None => None,
        },
        Json::List(mut v) => if pos < v.len() {
            Some(v.remove(pos))
        } else {
            None
        },
        _ => None,
    }
}

// ── Laws ─────────────────────────────────────────────────────────────────────

/// A field is found under its own name: the first entry with that name counts, entries
/// with other names do not matter, and what is no object has no fields.
pub proof fn law_field_is_found_by_its_name(
    before: Seq<(Seq<char>, JsonView)>,
    name: Seq<char>,
    value: JsonView,
    after: Seq<(Seq<char>, JsonView)>,
)
    requires
        forall|i: int| 0 <= i < before.len() ==> (#[trigger] before[i]).0 != name,
    ensures
        entry_of(before, name) is None,
        field_of(JsonView::Object(before + seq![(name, value)] + after), name) == Some(value),
        slot_of(JsonView::Object(before + seq![(name, value)] + after), 0, name) == Some(value),
        field_of(JsonView::Object(before), name) is None,
        field_of(value, name) is Some ==> value is Object,
    decreases before.len(),
{
    let all = before + seq![(name, value)] + after;
    if before.len() > 0 {
        let rest = before.drop_first();
        assert(all.drop_first() =~= rest + seq![(name, value)] + after);
        assert(all[0] == before[0]);
        assert forall|i: int| 0 <= i < rest.len() implies (#[trigger] rest[i]).0 != name by {
            assert(rest[i] == before[i + 1]);
        }
        law_field_is_found_by_its_name(rest, name, value, after);
    } else {
        assert(all[0] == (name, value));
    }
}

/// A record that is written as a list holds its fields by their places; one that is
/// written as an object, by their names. A list longer than the record is none.
pub proof fn law_record_by_place_or_name(
    list: Seq<JsonView>,
    entries: Seq<(Seq<char>, JsonView)>,
    pos: int,
    name: Seq<char>,
    n: int,
)
    requires
        0 <= pos,
    ensures
        slot_of(JsonView::List(list), pos, name) == (if pos < list.len() {
            Some(list[pos])
        } else {
            None
        }),
        slot_of(JsonView::Object(entries), pos, name) == field_of(JsonView::Object(entries), name),
        is_record(JsonView::List(list), n) <==> list.len() <= n,
        is_record(JsonView::Object(entries), n),
        !is_record(JsonView::Null, n),
{
}

/// An optional text is the text itself, nothing where the field is missing or null, and
/// anything else is not one.
pub proof fn law_optional_text(t: Seq<char>, j: JsonView)
    ensures
        optional_text(Some(JsonView::Text(t))) == Some(t),
        optional_text(None) is None,
        optional_text(Some(JsonView::Null)) is None,
        text_or_nothing(Some(j)) <==> j is Null || j is Text,
        text_or_nothing(None),
        present(Some(j)) == (if j is Null {
            None
        } else {
            Some(j)
        }),
{
}

} // verus!
