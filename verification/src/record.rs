//! Records in JSON texts: the fields that are known are read, each once, and all others
//! are passed over, whatever they hold.

use crate::json::{json_opt, parse, parsed, Json, JsonView};
use crate::text::{chars_of, join3, same_text, text_of, texts};
use vstd::prelude::*;

verus! {

// ── The outside crate ────────────────────────────────────────────────────────

/// The JSON value at the beginning of a text, with the white space before it. Only its
/// form counts: how deep it goes, how large its numbers are and whether its escapes make
/// characters does not.
pub uninterp spec fn first_value(s: Seq<char>) -> Option<Seq<char>>;

/// The first value of `serde_json`'s `StreamDeserializer`, read as an `IgnoredAny`, and
/// its `byte_offset`: whether there is a value, and where it ends, depends on the text
/// alone. A value is not empty, and the text is the value and what follows it.
#[verifier::external_body]
fn split_first(text: &str) -> (r: Option<(String, String)>)
    ensures
        match r {
            Some(p) => first_value(text@) == Some(p.0@) && p.0@.len() > 0 && text@ == p.0@ + p.1@,
            None => first_value(text@) is None,
        },
{
    let mut values = serde_json::Deserializer::from_str(text).into_iter::<serde::de::IgnoredAny>();
    values.next()?.ok()?;
    let (value, rest) = text.split_at(values.byte_offset());
    Some((value.to_string(), rest.to_string()))
}

// ── Pieces ───────────────────────────────────────────────────────────────────

/// Whether `c` is white space between the parts of a JSON text.
pub open spec fn json_space(c: char) -> bool {
    c == ' ' || c == '\t' || c == '\n' || c == '\r'
}

/// A text without the white space at its beginning.
pub open spec fn past_space(s: Seq<char>) -> Seq<char>
    decreases s.len(),
{
    if s.len() > 0 && json_space(s[0]) {
        past_space(s.drop_first())
    } else {
        s
    }
}

/// White space is part of the text that it is taken from.
pub proof fn lemma_past_space(s: Seq<char>)
    ensures
        past_space(s).len() <= s.len(),
    decreases s.len(),
{
    if s.len() > 0 && json_space(s[0]) {
        lemma_past_space(s.drop_first());
    }
}

/// A text without the white space at its beginning.
fn skip_space(text: &str) -> (r: String)
    ensures
        r@ == past_space(text@),
{
    let v = chars_of(text);
    let mut i: usize = 0;
    assert(v@.skip(0) =~= v@);
    while i < v.len() && (v[i] == ' ' || v[i] == '\t' || v[i] == '\n' || v[i] == '\r')
        invariant
            i <= v.len(),
            past_space(v@) == past_space(v@.skip(i as int)),
        decreases v.len() - i,
    {
        assert(v@.skip(i as int).drop_first() =~= v@.skip(i + 1));
        i += 1;
    }
    assert(v@.subrange(i as int, v@.len() as int) =~= v@.skip(i as int));
    text_of(&v, i, v.len())
}

/// The value at the beginning of a text, and what follows it and the white space after
/// it.
pub open spec fn leading(s: Seq<char>) -> Option<(Seq<char>, Seq<char>)> {
    match first_value(s) {
        Some(v) => if 0 < v.len() <= s.len() {
            Some((v, past_space(s.skip(v.len() as int))))
        } else {
            None
        },
        None => None,
    }
}

/// A value is not empty: what follows it is shorter than the text.
pub proof fn lemma_leading(s: Seq<char>)
    ensures
        leading(s) matches Some((_, rest)) ==> rest.len() < s.len(),
{
    if leading(s) is Some {
        lemma_past_space(s.skip(first_value(s)->0.len() as int));
    }
}

/// The characters of a pair of texts.
pub open spec fn pair_view(p: (String, String)) -> (Seq<char>, Seq<char>) {
    (p.0@, p.1@)
}

/// The value at the beginning of a text, and what follows it.
fn read_leading(text: &str) -> (r: Option<(String, String)>)
    ensures
        match r {
            Some(p) => leading(text@) == Some(pair_view(p)),
            None => leading(text@) is None,
        },
{
    match split_first(text) {
        Some((value, rest)) => {
            assert(text@.skip(value@.len() as int) =~= rest@);
            Some((value, skip_space(rest.as_str())))
        },
        None => None,
    }
}

/// Whether a text begins with `c`.
pub open spec fn begins(s: Seq<char>, c: char) -> bool {
    s.len() > 0 && s[0] == c
}

/// Whether a text is `c` and white space.
pub open spec fn ends_at(s: Seq<char>, c: char) -> bool {
    begins(s, c) && past_space(s.skip(1)).len() == 0
}

/// What follows `c` at the beginning of a text.
fn after_char(text: &str, c: char) -> (r: Option<String>)
    ensures
        r is Some <==> begins(text@, c),
        r is Some ==> r->0@ == text@.skip(1),
{
    let v = chars_of(text);
    if v.len() > 0 && v[0] == c {
        assert(v@.subrange(1, v@.len() as int) =~= v@.skip(1));
        Some(text_of(&v, 1, v.len()))
    } else {
        None
    }
}

/// Whether a text is `c` and white space.
fn is_end(text: &str, c: char) -> (r: bool)
    ensures
        r == ends_at(text@, c),
{
    match after_char(text, c) {
        Some(rest) => skip_space(rest.as_str()).as_str().is_empty(),
        None => false,
    }
}

// ── The members of an object ─────────────────────────────────────────────────

/// The key at the beginning of a text, and what follows its colon.
pub open spec fn key_at(s: Seq<char>) -> Option<(Seq<char>, Seq<char>)> {
    match leading(s) {
        Some((key, rest)) => match parsed(key) {
            Some(JsonView::Text(name)) => if begins(rest, ':') {
                Some((name, rest.skip(1)))
            } else {
                None
            },
            _ => None,
        },
        None => None,
    }
}

/// The key at the beginning of a text, and what follows its colon.
fn read_key(text: &str) -> (r: Option<(String, String)>)
    ensures
        match r {
            Some(p) => key_at(text@) == Some(pair_view(p)),
            None => key_at(text@) is None,
        },
{
    let (key, rest) = match read_leading(text) {
        Some(p) => p,
        None => {
            return None;
        },
    };
    match parse(key.as_str()) {
        Some(Json::Text(name)) => match after_char(rest.as_str(), ':') {
            Some(rest) => Some((name, rest)),
            None => None,
        },
        _ => None,
    }
}

/// The members of an object from a key on, to the end of the text: each key, and the
/// text of its value.
pub open spec fn members(s: Seq<char>) -> Option<Seq<(Seq<char>, Seq<char>)>>
    decreases s.len(),
{
    match key_at(s) {
        Some((name, rest)) => match leading(rest) {
            Some((value, tail)) => {
                proof {
                    lemma_leading(s);
                    lemma_leading(rest);
                }
                if begins(tail, ',') {
                    match members(tail.skip(1)) {
                        Some(more) => Some(seq![(name, value)] + more),
                        None => None,
                    }
                } else if ends_at(tail, '}') {
                    Some(seq![(name, value)])
                } else {
                    None
                }
            },
            None => None,
        },
        None => None,
    }
}

/// Pairs of texts by their characters.
pub open spec fn pairs(v: Seq<(String, String)>) -> Seq<(Seq<char>, Seq<char>)> {
    Seq::new(v.len(), |i: int| pair_view(v[i]))
}

/// What comes first, with what comes after it, where that is well formed.
pub open spec fn preceded<A>(first: Seq<A>, more: Option<Seq<A>>) -> Option<Seq<A>> {
    match more {
        Some(m) => Some(first + m),
        None => None,
    }
}

fn read_members(text: &str) -> (r: Option<Vec<(String, String)>>)
    ensures
        match r {
            Some(v) => members(text@) == Some(pairs(v@)),
            None => members(text@) is None,
        },
{
    let mut out: Vec<(String, String)> = Vec::new();
    let mut at = text.to_owned();
    assert(members(text@) is Some ==> pairs(out@) + members(text@)->0 =~= members(text@)->0);
    loop
        invariant
            members(text@) == preceded(pairs(out@), members(at@)),
        decreases at@.len(),
    {
        let (name, rest) = match read_key(at.as_str()) {
            Some(p) => p,
            None => {
                return None;
            },
        };
        let (value, tail) = match read_leading(rest.as_str()) {
            Some(p) => p,
            None => {
                return None;
            },
        };
        let ghost one = (name@, value@);
        let ghost before = pairs(out@);
        proof {
            lemma_leading(at@);
            lemma_leading(rest@);
        }
        match after_char(tail.as_str(), ',') {
            Some(next) => {
                out.push((name, value));
                proof {
                    assert(pairs(out@) =~= before.push(one));
                    if members(next@) is Some {
                        let more = members(next@)->0;
                        assert(before + (seq![one] + more) =~= pairs(out@) + more);
                    }
                }
                at = next;
            },
            None => {
                if !is_end(tail.as_str(), '}') {
                    return None;
                }
                out.push((name, value));
                assert(pairs(out@) =~= before + seq![one]);
                return Some(out);
            },
        }
    }
}

// ── The elements of a list ───────────────────────────────────────────────────

/// The elements of a list from one of them on, to the end of the text.
pub open spec fn elements(s: Seq<char>) -> Option<Seq<Seq<char>>>
    decreases s.len(),
{
    match leading(s) {
        Some((value, tail)) => {
            proof {
                lemma_leading(s);
            }
            if begins(tail, ',') {
                match elements(tail.skip(1)) {
                    Some(more) => Some(seq![value] + more),
                    None => None,
                }
            } else if ends_at(tail, ']') {
                Some(seq![value])
            } else {
                None
            }
        },
        None => None,
    }
}

fn read_elements(text: &str) -> (r: Option<Vec<String>>)
    ensures
        match r {
            Some(v) => elements(text@) == Some(texts(v@)),
            None => elements(text@) is None,
        },
{
    let mut out: Vec<String> = Vec::new();
    let mut at = text.to_owned();
    assert(elements(text@) is Some ==> texts(out@) + elements(text@)->0 =~= elements(text@)->0);
    loop
        invariant
            elements(text@) == preceded(texts(out@), elements(at@)),
        decreases at@.len(),
    {
        let (value, tail) = match read_leading(at.as_str()) {
            Some(p) => p,
            None => {
                return None;
            },
        };
        let ghost one = value@;
        let ghost before = texts(out@);
        proof {
            lemma_leading(at@);
        }
        match after_char(tail.as_str(), ',') {
            Some(next) => {
                out.push(value);
                proof {
                    assert(texts(out@) =~= before.push(one));
                    if elements(next@) is Some {
                        let more = elements(next@)->0;
                        assert(before + (seq![one] + more) =~= texts(out@) + more);
                    }
                }
                at = next;
            },
            None => {
                if !is_end(tail.as_str(), ']') {
                    return None;
                }
                out.push(value);
                assert(texts(out@) =~= before + seq![one]);
                return Some(out);
            },
        }
    }
}

// ── The parts of a record ────────────────────────────────────────────────────

/// The parts of an object or of a list, each still a text.
#[derive(Debug, PartialEq, Eq)]
pub enum Parts {
    Named(Vec<(String, String)>),
    Listed(Vec<String>),
}

/// [`Parts`] by their characters.
pub enum PartsView {
    Named(Seq<(Seq<char>, Seq<char>)>),
    Listed(Seq<Seq<char>>),
}

impl View for Parts {
    type V = PartsView;

    open spec fn view(&self) -> PartsView {
        match self {
            Parts::Named(v) => PartsView::Named(pairs(v@)),
            Parts::Listed(v) => PartsView::Listed(texts(v@)),
        }
    }
}

/// The parts of a text that is an object or a list.
pub open spec fn parts_of(s: Seq<char>) -> Option<PartsView> {
    let t = past_space(s);
    let inner = past_space(t.skip(1));
    if begins(t, '{') {
        if begins(inner, '}') {
            if ends_at(inner, '}') {
                Some(PartsView::Named(Seq::empty()))
            } else {
                None
            }
        } else {
            match members(inner) {
                Some(v) => Some(PartsView::Named(v)),
                None => None,
            }
        }
    } else if begins(t, '[') {
        if begins(inner, ']') {
            if ends_at(inner, ']') {
                Some(PartsView::Listed(Seq::empty()))
            } else {
                None
            }
        } else {
            match elements(inner) {
                Some(v) => Some(PartsView::Listed(v)),
                None => None,
            }
        }
    } else {
        None
    }
}

/// The parts of a text that is an object or a list. A key that is given twice is there
/// twice.
pub fn split_record(text: &str) -> (r: Option<Parts>)
    ensures
        match r {
            Some(p) => parts_of(text@) == Some(p@),
            None => parts_of(text@) is None,
        },
{
    let t = skip_space(text);
    match after_char(t.as_str(), '{') {
        Some(rest) => {
            let inner = skip_space(rest.as_str());
            if after_char(inner.as_str(), '}').is_some() {
                if is_end(inner.as_str(), '}') {
                    let none: Vec<(String, String)> = Vec::new();
                    assert(pairs(none@) =~= Seq::empty());
                    return Some(Parts::Named(none));
                }
                return None;
            }
            return match read_members(inner.as_str()) {
                Some(v) => Some(Parts::Named(v)),
                None => None,
            };
        },
        None => {},
    }
    match after_char(t.as_str(), '[') {
        Some(rest) => {
            let inner = skip_space(rest.as_str());
            if after_char(inner.as_str(), ']').is_some() {
                if is_end(inner.as_str(), ']') {
                    let none: Vec<String> = Vec::new();
                    assert(texts(none@) =~= Seq::empty());
                    return Some(Parts::Listed(none));
                }
                return None;
            }
            match read_elements(inner.as_str()) {
                Some(v) => Some(Parts::Listed(v)),
                None => None,
            }
        },
        None => None,
    }
}

// ── Fields ───────────────────────────────────────────────────────────────────

/// What a field may hold.
pub enum Shape {
    /// Any value.
    Any,
    /// A record with these fields, or null.
    Record(Vec<Field>),
}

/// A field of a record. Where it has one name only, its alias is that name.
pub struct Field {
    pub name: String,
    pub alias: String,
    pub shape: Shape,
}

/// A [`Shape`] by its characters.
pub enum ShapeView {
    Any,
    Record(Seq<FieldView>),
}

/// A [`Field`] by its characters.
pub struct FieldView {
    pub name: Seq<char>,
    pub alias: Seq<char>,
    pub shape: ShapeView,
}

/// A [`Shape`] by its characters.
pub open spec fn shape_view(s: Shape) -> ShapeView
    decreases s,
{
    match s {
        Shape::Any => ShapeView::Any,
        Shape::Record(v) => ShapeView::Record(
            Seq::new(
                v@.len(),
                |i: int|
                    if 0 <= i < v@.len() {
                        FieldView {
                            name: v@[i].name@,
                            alias: v@[i].alias@,
                            shape: shape_view(v@[i].shape),
                        }
                    } else {
                        arbitrary()
                    },
            ),
        ),
    }
}

impl View for Shape {
    type V = ShapeView;

    open spec fn view(&self) -> ShapeView {
        shape_view(*self)
    }
}

/// A field with one name, which may hold anything.
pub open spec fn any_named(name: Seq<char>) -> FieldView {
    FieldView { name, alias: name, shape: ShapeView::Any }
}

/// A field by its characters.
pub open spec fn field_view(f: Field) -> FieldView {
    FieldView { name: f.name@, alias: f.alias@, shape: f.shape@ }
}

/// A field with one name, which may hold anything.
pub fn any_field(name: &str) -> (r: Field)
    ensures
        field_view(r) == any_named(name@),
{
    Field { name: name.to_owned(), alias: name.to_owned(), shape: Shape::Any }
}

/// A field with two names, which may hold anything.
pub fn aliased_field(name: &str, alias: &str) -> (r: Field)
    ensures
        field_view(r) == (FieldView { name: name@, alias: alias@, shape: ShapeView::Any }),
{
    Field { name: name.to_owned(), alias: alias.to_owned(), shape: Shape::Any }
}

/// A field with one name, which may hold what `shape` says.
pub fn shaped_field(name: &str, shape: Shape) -> (r: Field)
    ensures
        field_view(r) == (FieldView { name: name@, alias: name@, shape: shape@ }),
{
    Field { name: name.to_owned(), alias: name.to_owned(), shape }
}

/// The texts that an object gives for a key, under either of its names, in order.
pub open spec fn given(v: Seq<(Seq<char>, Seq<char>)>, name: Seq<char>, alias: Seq<char>) -> Seq<
    Seq<char>,
>
    decreases v.len(),
{
    if v.len() == 0 {
        Seq::empty()
    } else if v.last().0 == name || v.last().0 == alias {
        given(v.drop_last(), name, alias).push(v.last().1)
    } else {
        given(v.drop_last(), name, alias)
    }
}

/// What the parts of a record hold for one of its fields.
#[derive(Debug, PartialEq, Eq)]
pub enum Part<S> {
    /// Nothing.
    Missing,
    /// More than one value, which is an error.
    Twice,
    /// One value.
    Once(S),
}

/// What the parts of a record hold for its field number `pos`. A list holds its fields
/// in their order.
pub open spec fn part_of(p: PartsView, pos: int, name: Seq<char>, alias: Seq<char>) -> Part<
    Seq<char>,
> {
    match p {
        PartsView::Named(v) => {
            let g = given(v, name, alias);
            if g.len() == 0 {
                Part::Missing
            } else if g.len() == 1 {
                Part::Once(g[0])
            } else {
                Part::Twice
            }
        },
        PartsView::Listed(v) => if pos < v.len() {
            Part::Once(v[pos])
        } else {
            Part::Missing
        },
    }
}

/// What the parts of a record hold for its field number `pos`.
fn read_part(p: &Parts, pos: usize, name: &str, alias: &str) -> (r: Part<String>)
    ensures
        match r {
            Part::Missing => part_of(p@, pos as int, name@, alias@) is Missing,
            Part::Twice => part_of(p@, pos as int, name@, alias@) is Twice,
            Part::Once(t) => part_of(p@, pos as int, name@, alias@) == Part::Once(t@),
        },
{
    match p {
        Parts::Listed(v) => if pos < v.len() {
            Part::Once(v[pos].as_str().to_owned())
        } else {
            Part::Missing
        },
        Parts::Named(v) => {
            let ghost all = pairs(v@);
            let mut found: Option<usize> = None;
            let mut i: usize = 0;
            assert(all.take(0) =~= Seq::empty());
            while i < v.len()
                invariant
                    i <= v.len(),
                    all == pairs(v@),
                    p@ == PartsView::Named(all),
                    match found {
                        None => given(all.take(i as int), name@, alias@).len() == 0,
                        Some(k) => k < i && given(all.take(i as int), name@, alias@) == seq![
                            all[k as int].1,
                        ],
                    },
                decreases v.len() - i,
            {
                let key = v[i].0.as_str();
                assert(all.take(i + 1).drop_last() =~= all.take(i as int));
                assert(all.take(i + 1).last() == all[i as int]);
                if same_text(key, name) || same_text(key, alias) {
                    if found.is_some() {
                        proof {
                            lemma_given_grows(all, i + 1, name@, alias@);
                        }
                        return Part::Twice;
                    }
                    proof {
                        let g = given(all.take(i + 1), name@, alias@);
                        assert(g =~= seq![all[i as int].1]);
                    }
                    found = Some(i);
                }
                i += 1;
            }
            assert(all.take(i as int) =~= all);
            match found {
                Some(k) => Part::Once(v[k].1.as_str().to_owned()),
                None => Part::Missing,
            }
        },
    }
}

/// What is given of a key in the first members is given in all of them.
proof fn lemma_given_grows(
    v: Seq<(Seq<char>, Seq<char>)>,
    n: int,
    name: Seq<char>,
    alias: Seq<char>,
)
    requires
        0 <= n <= v.len(),
    ensures
        given(v.take(n), name, alias).len() <= given(v, name, alias).len(),
    decreases v.len(),
{
    if n == v.len() {
        assert(v.take(n) =~= v);
    } else {
        assert(v.drop_last().take(n) =~= v.take(n));
        lemma_given_grows(v.drop_last(), n, name, alias);
    }
}

// ── Reading ──────────────────────────────────────────────────────────────────

/// The value that a text stands for one level down in a message: how deep a value may go
/// counts from the outside.
pub open spec fn within(s: Seq<char>) -> Option<JsonView> {
    match parsed("["@ + s + "]"@) {
        Some(JsonView::List(v)) => if v.len() == 1 {
            Some(v[0])
        } else {
            None
        },
        _ => None,
    }
}

/// The value that a text stands for one level down in a message.
fn read_within(text: &str) -> (r: Option<Json>)
    ensures
        json_opt(r) == within(text@),
{
    match parse(join3("[", text, "]").as_str()) {
        Some(Json::List(mut v)) => if v.len() == 1 {
            Some(v.remove(0))
        } else {
            None
        },
        _ => None,
    }
}

/// What was read of a field.
pub enum Filled {
    /// It is missing.
    Missing,
    /// It is given twice, or does not hold what it may.
    Wrong,
    /// Its value.
    Held(JsonView),
}

/// What is read of the field number `pos` of a record.
pub open spec fn filled(p: PartsView, f: FieldView, pos: int) -> Filled
    decreases f,
{
    match part_of(p, pos, f.name, f.alias) {
        Part::Missing => Filled::Missing,
        Part::Twice => Filled::Wrong,
        Part::Once(t) => match shaped(t, f.shape) {
            Some(j) => Filled::Held(j),
            None => Filled::Wrong,
        },
    }
}

/// What is read of each field of a record.
pub open spec fn fills(p: PartsView, fields: Seq<FieldView>) -> Seq<Filled>
    decreases fields,
{
    Seq::new(
        fields.len(),
        |i: int|
            if 0 <= i < fields.len() {
                filled(p, fields[i], i)
            } else {
                Filled::Missing
            },
    )
}

/// The fields of a record that hold something, by their names.
pub open spec fn held(fields: Seq<FieldView>, got: Seq<Filled>) -> Seq<(Seq<char>, JsonView)>
    decreases got.len(),
{
    if got.len() == 0 {
        Seq::empty()
    } else {
        let done = held(fields, got.drop_last());
        match got.last() {
            Filled::Held(j) => done.push((fields[got.len() - 1].name, j)),
            _ => done,
        }
    }
}

/// Whether a record has more parts than fields, which only a list can.
pub open spec fn too_long(p: PartsView, n: nat) -> bool {
    match p {
        PartsView::Named(_) => false,
        PartsView::Listed(v) => v.len() > n,
    }
}

/// What a text holds in the fields of a shape: a record as an object with the fields that
/// it gives. A record is written as an object, or as a list of its fields in their order,
/// which may be shorter but not longer.
pub open spec fn shaped(s: Seq<char>, shape: ShapeView) -> Option<JsonView>
    decreases shape,
{
    match shape {
        ShapeView::Any => within(s),
        ShapeView::Record(fields) => match parts_of(s) {
            Some(p) => {
                let got = fills(p, fields);
                if too_long(p, fields.len()) || exists|i: int|
                    0 <= i < got.len() && #[trigger] got[i] is Wrong {
                    None
                } else {
                    Some(JsonView::Object(held(fields, got)))
                }
            },
            None => match within(s) {
                Some(JsonView::Null) => Some(JsonView::Null),
                _ => None,
            },
        },
    }
}

/// Reads what a text holds in the fields of a shape; see [`shaped`].
pub fn read_shaped(text: &str, shape: &Shape) -> (r: Option<Json>)
    ensures
        json_opt(r) == shaped(text@, shape@),
    decreases shape,
{
    let fields = match shape {
        Shape::Any => {
            return read_within(text);
        },
        Shape::Record(fields) => fields,
    };
    let parts = match split_record(text) {
        Some(p) => p,
        None => {
            return match read_within(text) {
                Some(Json::Null) => Some(Json::Null),
                _ => None,
            };
        },
    };
    let long = match &parts {
        Parts::Named(_) => false,
        Parts::Listed(v) => v.len() > fields.len(),
    };
    if long {
        return None;
    }
    let ghost all = shape@->Record_0;
    let ghost got = fills(parts@, all);
    let mut out: Vec<(String, Json)> = Vec::new();
    let mut i: usize = 0;
    assert(Json::Object(out)@->Object_0 =~= held(all, got.take(0)));
    while i < fields.len()
        invariant
            i <= fields.len(),
            *shape == Shape::Record(*fields),
            all == shape@->Record_0,
            all.len() == fields@.len(),
            got == fills(parts@, all),
            parts_of(text@) == Some(parts@),
            !too_long(parts@, all.len()),
            forall|k: int| 0 <= k < i ==> !(#[trigger] got[k] is Wrong),
            Json::Object(out)@->Object_0 == held(all, got.take(i as int)),
        decreases fields.len() - i,
    {
        let f = &fields[i];
        assert(all[i as int] == (FieldView {
            name: f.name@,
            alias: f.alias@,
            shape: f.shape@,
        }));
        assert(got.take(i + 1).drop_last() =~= got.take(i as int));
        assert(got.take(i + 1).last() == got[i as int]);
        match read_part(&parts, i, f.name.as_str(), f.alias.as_str()) {
            Part::Missing => {},
            Part::Twice => {
                assert(got[i as int] is Wrong);
                return None;
            },
            Part::Once(t) => {
                assert(decreases_to!(shape => fields@[i as int].shape));
                match read_shaped(t.as_str(), &f.shape) {
                    Some(j) => {
                        let ghost before = Json::Object(out)@->Object_0;
                        out.push((f.name.as_str().to_owned(), j));
                        assert(Json::Object(out)@->Object_0 =~= before.push((f.name@, j@)));
                    },
                    None => {
                        assert(got[i as int] is Wrong);
                        return None;
                    },
                }
            },
        }
        i += 1;
    }
    assert(got.take(i as int) =~= got);
    Some(Json::Object(out))
}

/// A record that gives one of its fields twice is refused, be it under both of the
/// field's names.
pub proof fn law_repeated_field_is_refused(
    s: Seq<char>,
    v: Seq<(Seq<char>, Seq<char>)>,
    fields: Seq<FieldView>,
    i: int,
)
    requires
        parts_of(s) == Some(PartsView::Named(v)),
        0 <= i < fields.len(),
        given(v, fields[i].name, fields[i].alias).len() > 1,
    ensures
        shaped(s, ShapeView::Record(fields)) is None,
{
    assert(fills(PartsView::Named(v), fields)[i] is Wrong);
}

/// What an object holds besides the fields of a record does not matter: two objects that
/// give the same for each of the fields are the same record.
pub proof fn law_other_fields_are_passed_over(
    s: Seq<char>,
    t: Seq<char>,
    v: Seq<(Seq<char>, Seq<char>)>,
    w: Seq<(Seq<char>, Seq<char>)>,
    fields: Seq<FieldView>,
)
    requires
        parts_of(s) == Some(PartsView::Named(v)),
        parts_of(t) == Some(PartsView::Named(w)),
        forall|i: int|
            0 <= i < fields.len() ==> given(v, (#[trigger] fields[i]).name, fields[i].alias)
                == given(w, fields[i].name, fields[i].alias),
    ensures
        shaped(s, ShapeView::Record(fields)) == shaped(t, ShapeView::Record(fields)),
{
    assert(fills(PartsView::Named(v), fields) =~= fills(PartsView::Named(w), fields));
}

/// The value of a field that a record holds, where no field after it has its name.
proof fn lemma_held(fields: Seq<FieldView>, got: Seq<Filled>, i: int)
    requires
        got.len() <= fields.len(),
        0 <= i < fields.len(),
        forall|a: int, b: int|
            0 <= a < b < fields.len() ==> (#[trigger] fields[a]).name != (
            #[trigger] fields[b]).name,
    ensures
        i < got.len() && got[i] is Held ==> crate::json::entry_of(
            held(fields, got),
            fields[i].name,
        ) == Some(got[i]->Held_0),
        i >= got.len() || !(got[i] is Held) ==> crate::json::entry_of(
            held(fields, got),
            fields[i].name,
        ) is None,
    decreases got.len(),
{
    if got.len() > 0 {
        let n = got.len() - 1;
        let front = got.drop_last();
        let done = held(fields, front);
        lemma_held(fields, front, i);
        if i < n {
            assert(front[i] == got[i]);
        }
        if got.last() is Held {
            let entry = (fields[n].name, got.last()->Held_0);
            lemma_entry_after(done, entry, fields[i].name);
            if i < n {
                assert(fields[i].name != fields[n].name);
            }
            if i > n {
                assert(fields[n].name != fields[i].name);
            }
        }
    }
}

proof fn lemma_entry_after(
    v: Seq<(Seq<char>, JsonView)>,
    entry: (Seq<char>, JsonView),
    name: Seq<char>,
)
    ensures
        crate::json::entry_of(v.push(entry), name) == (match crate::json::entry_of(v, name) {
            Some(j) => Some(j),
            None => if entry.0 == name {
                Some(entry.1)
            } else {
                None
            },
        }),
    decreases v.len(),
{
    if v.len() == 0 {
        assert(v.push(entry).drop_first() =~= Seq::empty());
    } else {
        assert(v.push(entry).drop_first() =~= v.drop_first().push(entry));
        assert(v.push(entry)[0] == v[0]);
        lemma_entry_after(v.drop_first(), entry, name);
    }
}

/// A record holds each of its fields under the field's own name, as the text of that
/// field alone says: a field that is given once, under either of its names, holds what
/// its text holds, and one that is not given holds nothing.
pub proof fn law_record_holds_its_fields(
    s: Seq<char>,
    v: Seq<(Seq<char>, Seq<char>)>,
    fields: Seq<FieldView>,
    i: int,
)
    requires
        parts_of(s) == Some(PartsView::Named(v)),
        0 <= i < fields.len(),
        forall|a: int, b: int|
            0 <= a < b < fields.len() ==> (#[trigger] fields[a]).name != (
            #[trigger] fields[b]).name,
        shaped(s, ShapeView::Record(fields)) is Some,
    ensures
        ({
            let record = shaped(s, ShapeView::Record(fields))->0;
            let texts = given(v, fields[i].name, fields[i].alias);
            &&& texts.len() <= 1
            &&& texts.len() == 1 ==> crate::json::field_of(record, fields[i].name) == shaped(
                texts[0],
                fields[i].shape,
            )
            &&& texts.len() == 1 ==> shaped(texts[0], fields[i].shape) is Some
            &&& texts.len() == 0 ==> crate::json::field_of(record, fields[i].name) is None
        }),
{
    let p = PartsView::Named(v);
    let got = fills(p, fields);
    assert(!(got[i] is Wrong));
    lemma_held(fields, got, i);
}

/// A record is read where every field is given at most once and holds what it may.
pub proof fn law_record_is_read(
    s: Seq<char>,
    v: Seq<(Seq<char>, Seq<char>)>,
    fields: Seq<FieldView>,
)
    requires
        parts_of(s) == Some(PartsView::Named(v)),
    ensures
        shaped(s, ShapeView::Record(fields)) is Some <==> (forall|i: int|
            0 <= i < fields.len() ==> {
                let texts = given(v, (#[trigger] fields[i]).name, fields[i].alias);
                texts.len() == 0 || texts.len() == 1 && shaped(texts[0], fields[i].shape) is Some
            }),
        shaped(s, ShapeView::Record(fields)) matches Some(j) ==> j is Object,
{
    let p = PartsView::Named(v);
    let got = fills(p, fields);
    assert forall|i: int| 0 <= i < fields.len() implies (got[i] is Wrong <==> !({
        let texts = given(v, (#[trigger] fields[i]).name, fields[i].alias);
        texts.len() == 0 || texts.len() == 1 && shaped(texts[0], fields[i].shape) is Some
    })) by {
        assert(got[i] == filled(p, fields[i], i));
    }
    if shaped(s, ShapeView::Record(fields)) is Some {
        assert forall|i: int| 0 <= i < fields.len() implies ({
            let texts = given(v, (#[trigger] fields[i]).name, fields[i].alias);
            texts.len() == 0 || texts.len() == 1 && shaped(texts[0], fields[i].shape) is Some
        }) by {
            assert(!(got[i] is Wrong));
        }
    }
}

/// What is given under a name is given for it, and nothing else is: one more entry counts
/// if and only if it has either of the field's names, and the order is kept.
pub proof fn law_given_under_either_name(
    v: Seq<(Seq<char>, Seq<char>)>,
    key: Seq<char>,
    text: Seq<char>,
    name: Seq<char>,
    alias: Seq<char>,
)
    ensures
        given(v.push((key, text)), name, alias) == (if key == name || key == alias {
            given(v, name, alias).push(text)
        } else {
            given(v, name, alias)
        }),
        given(Seq::empty(), name, alias) == Seq::<Seq<char>>::empty(),
{
    assert(v.push((key, text)).drop_last() =~= v);
}

/// A value that is not read further is what its text stands for within a list of one.
pub proof fn law_any_value_is_taken_as_it_is(s: Seq<char>, j: JsonView)
    requires
        parsed("["@ + s + "]"@) == Some(JsonView::List(seq![j])),
    ensures
        shaped(s, ShapeView::Any) == Some(j),
{
}

/// Whether an object gives a field once, under either of its names, and with this text
/// for its value.
pub open spec fn holds_text(
    v: Seq<(Seq<char>, Seq<char>)>,
    name: Seq<char>,
    alias: Seq<char>,
    text: Seq<char>,
) -> bool {
    given(v, name, alias).len() == 1 && parsed("["@ + given(v, name, alias)[0] + "]"@) == Some(
        JsonView::List(seq![JsonView::Text(text)]),
    )
}

/// Whether an object gives a field once, under either of its names, and with an object of
/// these members for its value.
pub open spec fn holds_record(
    v: Seq<(Seq<char>, Seq<char>)>,
    name: Seq<char>,
    alias: Seq<char>,
    inner: Seq<(Seq<char>, Seq<char>)>,
) -> bool {
    given(v, name, alias).len() == 1 && parts_of(given(v, name, alias)[0]) == Some(
        PartsView::Named(inner),
    )
}

/// What a record of up to three fields holds whose object gives each of them once.
pub proof fn lemma_record_of(s: Seq<char>, v: Seq<(Seq<char>, Seq<char>)>, fields: Seq<FieldView>)
    requires
        parts_of(s) == Some(PartsView::Named(v)),
        1 <= fields.len() <= 3,
        forall|i: int|
            0 <= i < fields.len() ==> {
                let g = given(v, (#[trigger] fields[i]).name, fields[i].alias);
                g.len() == 1 && shaped(g[0], fields[i].shape) is Some
            },
    ensures
        shaped(s, ShapeView::Record(fields)) == Some(
            JsonView::Object(
                Seq::new(
                    fields.len(),
                    |i: int|
                        (
                            fields[i].name,
                            shaped(
                                given(v, fields[i].name, fields[i].alias)[0],
                                fields[i].shape,
                            )->0,
                        ),
                ),
            ),
        ),
{
    let p = PartsView::Named(v);
    let got = fills(p, fields);
    assert forall|i: int| 0 <= i < fields.len() implies got[i] == Filled::Held(
        shaped(
            given(v, (#[trigger] fields[i]).name, fields[i].alias)[0],
            fields[i].shape,
        )->0,
    ) by {
        assert(got[i] == filled(p, fields[i], i));
    }
    assert(forall|i: int| 0 <= i < got.len() ==> !(#[trigger] got[i] is Wrong));
    reveal_with_fuel(held, 4);
    assert(held(fields, got) =~= Seq::new(
        fields.len(),
        |i: int|
            (
                fields[i].name,
                shaped(
                    given(v, fields[i].name, fields[i].alias)[0],
                    fields[i].shape,
                )->0,
            ),
    ));
}

/// An object is read member by member: a key, a colon and a value, and then either a comma
/// and the members after it, or the brace that ends the object, with nothing but white
/// space after it; anything else is no object.
pub proof fn law_object_is_read_member_by_member(
    s: Seq<char>,
    name: Seq<char>,
    rest: Seq<char>,
    value: Seq<char>,
    tail: Seq<char>,
)
    requires
        key_at(s) == Some((name, rest)),
        leading(rest) == Some((value, tail)),
    ensures
        tail.len() == 0 ==> members(s) is None,
        tail.len() > 0 && tail[0] == ',' && members(tail.skip(1)) is Some ==> members(s) == Some(
            seq![(name, value)] + members(tail.skip(1))->0,
        ),
        tail.len() > 0 && tail[0] == ',' && members(tail.skip(1)) is None ==> members(s) is None,
        tail == seq!['}'] ==> members(s) == Some(seq![(name, value)]),
        tail.len() > 0 && tail[0] != ',' && tail[0] != '}' ==> members(s) is None,
{
    if tail == seq!['}'] {
        assert(tail.skip(1) =~= Seq::<char>::empty());
        assert(past_space(tail.skip(1)).len() == 0);
    }
}

/// A key is a text in front of a colon; what follows the colon is what its value is read
/// from.
pub proof fn law_key_stands_before_a_colon(
    s: Seq<char>,
    key: Seq<char>,
    name: Seq<char>,
    rest: Seq<char>,
)
    requires
        leading(s) == Some((key, rest)),
    ensures
        parsed(key) == Some(JsonView::Text(name)) && rest.len() > 0 && rest[0] == ':' ==> key_at(s)
            == Some((name, rest.skip(1))),
        rest.len() == 0 || rest[0] != ':' ==> key_at(s) is None,
        !(parsed(key) matches Some(JsonView::Text(_))) ==> key_at(s) is None,
{
}

/// A list is read element by element, as an object is member by member, and ends with its
/// bracket.
pub proof fn law_list_is_read_element_by_element(s: Seq<char>, value: Seq<char>, tail: Seq<char>)
    requires
        leading(s) == Some((value, tail)),
    ensures
        tail.len() == 0 ==> elements(s) is None,
        tail.len() > 0 && tail[0] == ',' && elements(tail.skip(1)) is Some ==> elements(s) == Some(
            seq![value] + elements(tail.skip(1))->0,
        ),
        tail.len() > 0 && tail[0] == ',' && elements(tail.skip(1)) is None ==> elements(s) is None,
        tail == seq![']'] ==> elements(s) == Some(seq![value]),
        tail.len() > 0 && tail[0] != ',' && tail[0] != ']' ==> elements(s) is None,
{
    if tail == seq![']'] {
        assert(tail.skip(1) =~= Seq::<char>::empty());
        assert(past_space(tail.skip(1)).len() == 0);
    }
}

/// A text is an object or a list by its first character; what is within is read from there
/// on.
pub proof fn law_braces_make_a_record(inner: Seq<char>)
    requires
        inner.len() > 0,
        !json_space(inner[0]),
    ensures
        inner[0] != '}' && members(inner) is Some ==> parts_of(seq!['{'] + inner) == Some(
            PartsView::Named(members(inner)->0),
        ),
        inner[0] != '}' && members(inner) is None ==> parts_of(seq!['{'] + inner) is None,
        inner[0] != ']' && elements(inner) is Some ==> parts_of(seq!['['] + inner) == Some(
            PartsView::Listed(elements(inner)->0),
        ),
        inner == seq!['}'] ==> parts_of(seq!['{'] + inner) == Some(PartsView::Named(Seq::empty())),
        inner == seq![']'] ==> parts_of(seq!['['] + inner) == Some(PartsView::Listed(Seq::empty())),
        inner[0] != '{' && inner[0] != '[' ==> parts_of(inner) is None,
{
    let a = seq!['{'] + inner;
    let b = seq!['['] + inner;
    assert(a.skip(1) =~= inner);
    assert(b.skip(1) =~= inner);
    assert(past_space(inner) == inner);
    assert(past_space(a) == a);
    assert(past_space(b) == b);
    if inner == seq!['}'] || inner == seq![']'] {
        assert(inner.skip(1) =~= Seq::<char>::empty());
        assert(past_space(inner.skip(1)).len() == 0);
    }
}

} // verus!
