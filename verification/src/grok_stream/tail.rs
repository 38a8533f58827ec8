//! Following a file of lines that is appended to: unfinished lines wait for their
//! end, and a file that was cut short is read from its beginning.
//!
//! The caller opens the file, tells its length, and reads what is asked for.

use crate::text::texts;
use vstd::prelude::*;
use vstd::utf8::{decode_utf8, encode_utf8, valid_utf8};

verus! {

/// The byte that ends a line.
pub const NEWLINE: u8 = 10;

/// The byte that some writers put in front of it.
pub const RETURN: u8 = 13;

// ── Lines ────────────────────────────────────────────────────────────────────

/// What stands after the last line end.
pub open spec fn rest_of(s: Seq<u8>) -> Seq<u8>
    decreases s.len(),
{
    if s.len() == 0 || s.last() == NEWLINE {
        Seq::empty()
    } else {
        rest_of(s.drop_last()).push(s.last())
    }
}

/// The lines that are finished, without their ends.
pub open spec fn lines_of(s: Seq<u8>) -> Seq<Seq<u8>>
    decreases s.len(),
{
    if s.len() == 0 {
        Seq::empty()
    } else if s.last() == NEWLINE {
        lines_of(s.drop_last()).push(rest_of(s.drop_last()))
    } else {
        lines_of(s.drop_last())
    }
}

/// A line without a return at its end.
pub open spec fn without_return(l: Seq<u8>) -> Seq<u8> {
    if l.len() > 0 && l.last() == RETURN {
        l.drop_last()
    } else {
        l
    }
}

/// The lines that hold something, without a return at their ends.
pub open spec fn kept(lines: Seq<Seq<u8>>) -> Seq<Seq<u8>>
    decreases lines.len(),
{
    if lines.len() == 0 {
        Seq::empty()
    } else {
        let l = without_return(lines.last());
        if l.len() > 0 {
            kept(lines.drop_last()).push(l)
        } else {
            kept(lines.drop_last())
        }
    }
}

/// The bytes of each of several pieces.
pub open spec fn pieces(v: Seq<Vec<u8>>) -> Seq<Seq<u8>> {
    Seq::new(v.len(), |i: int| v[i]@)
}

/// The lines of `bytes` that are finished and hold something, and what stands after
/// the last line end.
pub fn split_lines(bytes: &Vec<u8>) -> (r: (Vec<Vec<u8>>, Vec<u8>))
    ensures
        pieces(r.0@) == kept(lines_of(bytes@)),
        r.1@ == rest_of(bytes@),
{
    let mut lines: Vec<Vec<u8>> = Vec::new();
    let mut rest: Vec<u8> = Vec::new();
    let mut i: usize = 0;
    assert(pieces(lines@) =~= kept(lines_of(bytes@.take(0))));
    while i < bytes.len()
        invariant
            i <= bytes.len(),
            pieces(lines@) == kept(lines_of(bytes@.take(i as int))),
            rest@ == rest_of(bytes@.take(i as int)),
        decreases bytes.len() - i,
    {
        assert(bytes@.take(i + 1).drop_last() =~= bytes@.take(i as int));
        let b: u8 = bytes[i];
        if b == NEWLINE {
            let ghost line = rest@;
            let ghost before = lines_of(bytes@.take(i as int));
            assert(before.push(line).drop_last() =~= before);
            let n: usize = rest.len();
            if n > 0 && rest[n - 1] == RETURN {
                let _ = rest.pop();
            }
            assert(rest@ =~= without_return(line));
            if rest.len() > 0 {
                let ghost held = pieces(lines@);
                let ghost piece = rest@;
                lines.push(rest);
                assert(pieces(lines@) =~= held.push(piece));
            }
            rest = Vec::new();
        } else {
            rest.push(b);
        }
        i += 1;
    }
    assert(bytes@.take(i as int) =~= bytes@);
    (lines, rest)
}

// ── Text ─────────────────────────────────────────────────────────────────────

/// The text of a line's bytes, with the bytes that are not UTF-8 replaced.
pub uninterp spec fn lossy_text(bytes: Seq<u8>) -> Seq<char>;

/// `String::from_utf8_lossy`: the text depends on the bytes alone, and is what they
/// encode where they are UTF-8. How other bytes are replaced is not said.
#[verifier::external_body]
fn decode_lossy(bytes: &Vec<u8>) -> (r: String)
    ensures
        r@ == lossy_text(bytes@),
        valid_utf8(bytes@) ==> r@ == decode_utf8(bytes@),
{
    String::from_utf8_lossy(bytes).into_owned()
}

/// The text of each of several lines.
pub open spec fn line_texts(lines: Seq<Seq<u8>>) -> Seq<Seq<char>> {
    Seq::new(lines.len(), |i: int| lossy_text(lines[i]))
}

/// What a piece of a file is read as.
fn read_lines(lines: &Vec<Vec<u8>>) -> (r: Vec<String>)
    ensures
        texts(r@) == line_texts(pieces(lines@)),
        forall|i: int|
            0 <= i < r.len() && valid_utf8(lines[i]@) ==> (#[trigger] r[i])@ == decode_utf8(
                lines[i]@,
            ),
{
    let mut out: Vec<String> = Vec::new();
    let mut i: usize = 0;
    while i < lines.len()
        invariant
            i == out.len(),
            i <= lines.len(),
            forall|j: int| 0 <= j < i ==> (#[trigger] out[j])@ == lossy_text(lines[j]@),
            forall|j: int|
                0 <= j < i && valid_utf8(lines[j]@) ==> (#[trigger] out[j])@ == decode_utf8(
                    lines[j]@,
                ),
        decreases lines.len() - i,
    {
        out.push(decode_lossy(&lines[i]));
        i += 1;
    }
    assert(texts(out@) =~= line_texts(pieces(lines@)));
    out
}

// ── The file ─────────────────────────────────────────────────────────────────

/// How far a file was read, and the unfinished line at that point.
#[derive(Debug, PartialEq, Eq)]
pub struct JsonlTail {
    offset: u64,
    partial: Vec<u8>,
}

/// A [`JsonlTail`] as mathematical values.
#[verifier::ext_equal]
pub struct TailView {
    /// How many bytes were read.
    pub offset: u64,
    /// The bytes after the last line end.
    pub partial: Seq<u8>,
}

impl View for JsonlTail {
    type V = TailView;

    closed spec fn view(&self) -> TailView {
        TailView { offset: self.offset, partial: self.partial@ }
    }
}

/// A tail that starts at `offset` of a file of `len` bytes, or at its end.
pub open spec fn attached_tail(len: u64, offset: u64) -> TailView {
    TailView {
        offset: if offset < len {
            offset
        } else {
            len
        },
        partial: Seq::empty(),
    }
}

/// A tail once it has seen that its file holds `len` bytes: a file that has become
/// shorter is a new one.
pub open spec fn sighted(t: TailView, len: u64) -> TailView {
    if len < t.offset {
        TailView { offset: 0, partial: Seq::empty() }
    } else {
        t
    }
}

/// A tail after it was handed `bytes`.
pub open spec fn fed(t: TailView, bytes: Seq<u8>) -> TailView {
    TailView {
        offset: t.offset.saturating_add(bytes.len() as u64),
        partial: rest_of(t.partial + bytes),
    }
}

/// The lines, as bytes, that `bytes` finish.
pub open spec fn finished(t: TailView, bytes: Seq<u8>) -> Seq<Seq<u8>> {
    kept(lines_of(t.partial + bytes))
}

impl JsonlTail {
    /// Starts at the end of a file of `len` bytes: what it holds is history.
    pub fn attach_at_eof(len: u64) -> (r: Self)
        ensures
            r@ == attached_tail(len, len),
    {
        let r = JsonlTail { offset: len, partial: Vec::new() };
        assert(r@ =~= attached_tail(len, len));
        r
    }

    /// Starts at `offset` of a file of `len` bytes, or at its end where that is before.
    pub fn attach_at(len: u64, offset: u64) -> (r: Self)
        ensures
            r@ == attached_tail(len, offset),
    {
        let r = JsonlTail {
            offset: if offset < len {
                offset
            } else {
                len
            },
            partial: Vec::new(),
        };
        assert(r@ =~= attached_tail(len, offset));
        r
    }

    /// How many bytes were read.
    pub fn offset(&self) -> (r: u64)
        ensures
            r == self@.offset,
    {
        self.offset
    }

    /// Whether an unfinished line waits for its end.
    pub fn has_partial(&self) -> (r: bool)
        ensures
            r == (self@.partial.len() > 0),
    {
        self.partial.len() > 0
    }

    /// The file now holds `len` bytes: where to read on from, or `None` where there is
    /// nothing new.
    pub fn sight(&mut self, len: u64) -> (r: Option<u64>)
        ensures
            final(self)@ == sighted(old(self)@, len),
            r == (if len == final(self)@.offset && final(self)@.partial.len() == 0 {
                None
            } else {
                Some(final(self)@.offset)
            }),
    {
        if len < self.offset {
            self.offset = 0;
            self.partial = Vec::new();
            assert(self@ =~= sighted(old(self)@, len));
        }
        if len == self.offset && self.partial.len() == 0 {
            None
        } else {
            Some(self.offset)
        }
    }

    /// Takes what was read from there to the file's end: the lines that it finishes.
    pub fn feed(&mut self, bytes: &Vec<u8>) -> (r: Vec<String>)
        ensures
            final(self)@ == fed(old(self)@, bytes@),
            texts(r@) == line_texts(finished(old(self)@, bytes@)),
            forall|i: int|
                0 <= i < r.len() && valid_utf8(finished(old(self)@, bytes@)[i])
                    ==> (#[trigger] r[i])@ == decode_utf8(finished(old(self)@, bytes@)[i]),
    {
        let ghost before = self@;
        self.offset = self.offset.saturating_add(bytes.len() as u64);
        let mut all: Vec<u8> = Vec::new();
        std::mem::swap(&mut all, &mut self.partial);
        let mut i: usize = 0;
        assert(bytes@.take(0) =~= Seq::empty());
        assert(all@ =~= before.partial + bytes@.take(0));
        while i < bytes.len()
            invariant
                i <= bytes.len(),
                all@ == before.partial + bytes@.take(i as int),
            decreases bytes.len() - i,
        {
            all.push(bytes[i]);
            i += 1;
            assert(all@ =~= before.partial + bytes@.take(i as int));
        }
        assert(bytes@.take(i as int) =~= bytes@);
        let (lines, rest) = split_lines(&all);
        self.partial = rest;
        let out = read_lines(&lines);
        proof {
            let f = finished(before, bytes@);
            assert(texts(out@).len() == f.len());
            assert forall|i: int| 0 <= i < out.len() && valid_utf8(f[i]) implies (
            #[trigger] out[i])@ == decode_utf8(f[i]) by {
                assert(pieces(lines@)[i] == lines[i]@);
            }
        }
        out
    }
}

// ── Laws ─────────────────────────────────────────────────────────────────────

/// The rest holds no line end.
proof fn lemma_rest_has_no_end(s: Seq<u8>)
    ensures
        !rest_of(s).contains(NEWLINE),
    decreases s.len(),
{
    if s.len() > 0 && s.last() != NEWLINE {
        let t = rest_of(s.drop_last());
        lemma_rest_has_no_end(s.drop_last());
        assert forall|i: int| 0 <= i < rest_of(s).len() implies rest_of(s)[i] != NEWLINE by {
            if i < t.len() {
                assert(t[i] == rest_of(s)[i]);
            }
        }
    }
}

/// What has no line end is all rest.
proof fn lemma_all_rest(s: Seq<u8>)
    requires
        !s.contains(NEWLINE),
    ensures
        rest_of(s) == s,
        lines_of(s).len() == 0,
    decreases s.len(),
{
    if s.len() > 0 {
        let t = s.drop_last();
        assert(s[s.len() - 1] != NEWLINE);
        assert forall|i: int| 0 <= i < t.len() implies t[i] != NEWLINE by {
            assert(s[i] == t[i]);
        }
        lemma_all_rest(t);
        assert(t.push(s.last()) =~= s);
    } else {
        assert(s =~= Seq::empty());
    }
}

/// Lines, read in two parts.
proof fn lemma_two_parts(a: Seq<u8>, b: Seq<u8>)
    ensures
        rest_of(a + b) == rest_of(rest_of(a) + b),
        lines_of(a + b) == lines_of(a) + lines_of(rest_of(a) + b),
    decreases b.len(),
{
    let r = rest_of(a);
    if b.len() == 0 {
        assert(a + b =~= a);
        assert(r + b =~= r);
        lemma_rest_has_no_end(a);
        lemma_all_rest(r);
        assert(lines_of(a) + lines_of(r) =~= lines_of(a));
    } else {
        let c = b.drop_last();
        lemma_two_parts(a, c);
        assert((a + b).drop_last() =~= a + c);
        assert((r + b).drop_last() =~= r + c);
        assert((a + b).last() == b.last());
        assert((r + b).last() == b.last());
        assert(lines_of(a + b) =~= lines_of(a) + lines_of(r + b));
    }
}

/// The kept lines of two lists.
proof fn lemma_kept_two(a: Seq<Seq<u8>>, b: Seq<Seq<u8>>)
    ensures
        kept(a + b) == kept(a) + kept(b),
    decreases b.len(),
{
    if b.len() == 0 {
        assert(a + b =~= a);
        assert(kept(a) + kept(b) =~= kept(a));
    } else {
        lemma_kept_two(a, b.drop_last());
        assert((a + b).drop_last() =~= a + b.drop_last());
        assert(kept(a + b) =~= kept(a) + kept(b));
    }
}

/// A file gives the same lines however its growth is cut into pieces: reading `a` and
/// then `b` gives what reading both at once gives, and leaves the same line unfinished.
pub proof fn law_pieces_do_not_matter(t: TailView, a: Seq<u8>, b: Seq<u8>)
    ensures
        finished(t, a + b) == finished(t, a) + finished(fed(t, a), b),
        fed(t, a + b).partial == fed(fed(t, a), b).partial,
{
    let s = t.partial + a;
    assert(t.partial + (a + b) =~= s + b);
    lemma_two_parts(s, b);
    lemma_kept_two(lines_of(s), lines_of(rest_of(s) + b));
}

/// The bytes that lines and a rest were read from.
pub open spec fn joined(lines: Seq<Seq<u8>>, rest: Seq<u8>) -> Seq<u8>
    decreases lines.len(),
{
    if lines.len() == 0 {
        rest
    } else {
        joined(lines.drop_last(), lines.last().push(NEWLINE) + rest)
    }
}

/// Joining with more at the end.
proof fn lemma_joined_push(lines: Seq<Seq<u8>>, rest: Seq<u8>, more: Seq<u8>)
    ensures
        joined(lines, rest + more) == joined(lines, rest) + more,
    decreases lines.len(),
{
    if lines.len() > 0 {
        let head = lines.last().push(NEWLINE);
        assert(head + (rest + more) =~= (head + rest) + more);
        lemma_joined_push(lines.drop_last(), head + rest, more);
    }
}

/// Splitting loses nothing: the lines with their ends, and the rest, are the bytes; no
/// rest and no line holds a line end.
pub proof fn law_splitting_loses_nothing(s: Seq<u8>)
    ensures
        joined(lines_of(s), rest_of(s)) == s,
        !rest_of(s).contains(NEWLINE),
        forall|i: int| 0 <= i < lines_of(s).len() ==> !(#[trigger] lines_of(s)[i]).contains(NEWLINE),
    decreases s.len(),
{
    lemma_rest_has_no_end(s);
    if s.len() > 0 {
        let t = s.drop_last();
        law_splitting_loses_nothing(t);
        let l = lines_of(t);
        let r = rest_of(t);
        if s.last() == NEWLINE {
            assert(l.push(r).drop_last() =~= l);
            assert(r.push(NEWLINE) + Seq::<u8>::empty() =~= r + seq![NEWLINE]);
            lemma_joined_push(l, r, seq![NEWLINE]);
            assert(t + seq![NEWLINE] =~= s);
        } else {
            assert(r.push(s.last()) =~= r + seq![s.last()]);
            lemma_joined_push(l, r, seq![s.last()]);
            assert(t + seq![s.last()] =~= s);
        }
    } else {
        assert(joined(lines_of(s), rest_of(s)) =~= s);
    }
}

/// The bytes of one character: itself where it is ASCII, else none that is.
proof fn lemma_scalar_bytes(c: u32)
    ensures
        vstd::utf8::encode_scalar(c).len() > 0,
        c <= 0x7F ==> vstd::utf8::encode_scalar(c) == seq![c as u8],
        c > 0x7F ==> forall|i: int|
            0 <= i < vstd::utf8::encode_scalar(c).len() ==> #[trigger] vstd::utf8::encode_scalar(
                c,
            )[i] >= 0x80,
{
    assert(c <= 0x7F ==> (c & 0x7F) as u8 == c as u8) by (bit_vector);
    assert(forall|x: u8| #[trigger] (0x80u8 | x) >= 0x80) by (bit_vector);
    assert(forall|x: u8| #[trigger] (0xC0u8 | x) >= 0x80) by (bit_vector);
    assert(forall|x: u8| #[trigger] (0xE0u8 | x) >= 0x80) by (bit_vector);
    assert(forall|x: u8| #[trigger] (0xF0u8 | x) >= 0x80) by (bit_vector);
}

/// A text without a line end, and not ending in a return, is encoded likewise.
proof fn lemma_encoded_line(text: Seq<char>)
    requires
        text.len() > 0,
        !text.contains('\n'),
        text.last() != '\r',
    ensures
        encode_utf8(text).len() > 0,
        !encode_utf8(text).contains(NEWLINE),
        encode_utf8(text).last() != RETURN,
    decreases text.len(),
{
    let head = vstd::utf8::encode_scalar(text[0] as u32);
    let rest = text.drop_first();
    let tail = encode_utf8(rest);
    lemma_scalar_bytes(text[0] as u32);
    vstd::utf8::char_u32_cast(text[0], text[0] as u32);
    assert(text.contains(text[0]));
    if rest.len() > 0 {
        assert forall|i: int| 0 <= i < rest.len() implies rest[i] != '\n' by {
            assert(text.contains(text[i + 1]));
        }
        lemma_encoded_line(rest);
    } else {
        assert(text.last() == text[0]);
        assert(tail =~= Seq::empty());
    }
    assert forall|i: int| 0 <= i < encode_utf8(text).len() implies encode_utf8(text)[i]
        != NEWLINE by {
        if i < head.len() {
            assert(encode_utf8(text)[i] == head[i]);
        } else {
            assert(encode_utf8(text)[i] == tail[i - head.len()]);
            assert(tail.contains(tail[i - head.len()]));
        }
    }
}

/// A text that was appended as a line of its own is read back: its bytes come out as
/// one line, which decodes to the text, and no line is left unfinished.
pub proof fn law_line_reads_back(t: TailView, text: Seq<char>)
    requires
        t.partial.len() == 0,
        text.len() > 0,
        !text.contains('\n'),
        text.last() != '\r',
    ensures
        finished(t, encode_utf8(text).push(NEWLINE)) == seq![encode_utf8(text)],
        valid_utf8(encode_utf8(text)),
        decode_utf8(encode_utf8(text)) == text,
        fed(t, encode_utf8(text).push(NEWLINE)).partial.len() == 0,
{
    let e = encode_utf8(text);
    vstd::utf8::encode_utf8_valid_utf8(text);
    vstd::utf8::encode_utf8_decode_utf8(text);
    lemma_encoded_line(text);
    let s = t.partial + e.push(NEWLINE);
    assert(s =~= e.push(NEWLINE));
    assert(s.drop_last() =~= e);
    lemma_all_rest(e);
    let l = lines_of(s);
    assert(l =~= seq![e]);
    assert(kept(l.drop_last()) =~= Seq::empty());
    assert(l.last() == e);
    assert(kept(l) =~= seq![e]);
}

/// A file that became shorter is read from its beginning; one that grew is read from
/// where the last reading ended.
pub proof fn law_truncation_starts_over(t: TailView, len: u64)
    ensures
        len < t.offset ==> sighted(t, len).offset == 0 && sighted(t, len).partial.len() == 0,
        len >= t.offset ==> sighted(t, len) == t,
{
}

/// A finished line is handed on without its end, be that a line end alone or a return and
/// a line end; an empty line is not.
pub proof fn law_lines_come_without_their_ends(lines: Seq<Seq<u8>>, l: Seq<u8>)
    requires
        l.len() > 0,
        l.last() != 13,
    ensures
        kept(lines.push(l)) == kept(lines).push(l),
        kept(lines.push(l.push(13))) == kept(lines).push(l),
        kept(lines.push(Seq::empty())) == kept(lines),
        kept(lines.push(seq![13u8])) == kept(lines),
        kept(Seq::empty()) == Seq::<Seq<u8>>::empty(),
{
    assert(lines.push(l).drop_last() =~= lines);
    assert(lines.push(l.push(13)).drop_last() =~= lines);
    assert(l.push(13).drop_last() =~= l);
    assert(lines.push(Seq::<u8>::empty()).drop_last() =~= lines);
    assert(lines.push(seq![13u8]).drop_last() =~= lines);
    assert(without_return(seq![13u8]) =~= Seq::<u8>::empty());
}

/// A line end, byte 10, finishes the line before it; any other byte belongs to the line
/// that is not finished.
pub proof fn law_line_end_finishes_the_line(s: Seq<u8>, b: u8)
    ensures
        lines_of(s.push(10)) == lines_of(s).push(rest_of(s)),
        rest_of(s.push(10)).len() == 0,
        b != 10 ==> lines_of(s.push(b)) == lines_of(s) && rest_of(s.push(b)) == rest_of(s).push(b),
        lines_of(Seq::empty()).len() == 0 && rest_of(Seq::empty()).len() == 0,
{
    assert(s.push(10).drop_last() =~= s);
    assert(s.push(b).drop_last() =~= s);
}

/// A file is read on from where the last reading ended: every byte that was handed over
/// counts, once. A file that is followed from its end gives nothing of what it held.
pub proof fn law_reading_goes_on(t: TailView, bytes: Seq<u8>, len: u64, offset: u64)
    requires
        t.offset + bytes.len() <= u64::MAX,
    ensures
        fed(t, bytes).offset == t.offset + bytes.len(),
        attached_tail(len, len).offset == len,
        attached_tail(len, len).partial.len() == 0,
        attached_tail(len, offset).offset == (if offset < len {
            offset
        } else {
            len
        }),
        attached_tail(len, offset).partial.len() == 0,
        !(t.partial + bytes).contains(10) ==> finished(t, bytes).len() == 0 && fed(t, bytes).partial
            == t.partial + bytes,
{
    if !(t.partial + bytes).contains(10) {
        lemma_all_rest(t.partial + bytes);
    }
}

} // verus!
