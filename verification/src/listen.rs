//! Hands-free dictation: where an utterance begins and ends, the words that drive it,
//! and the turn that they open and close.
//!
//! The caller owns the microphone and the transcription; it hands over whether a frame
//! holds speech, the transcripts of utterances, and the time that passes.

use crate::text::{
    chars_of, is_alnum, is_space, lemma_trim, lemma_trim_end, lemma_trim_end_after,
    lemma_trim_start, lemma_trim_start_before, lowercase, same_text, text_of, texts, trim, trim_end,
    trim_start, trimmed, trimmed_end,
};
use vstd::prelude::*;

verus! {

// ── Utterances ───────────────────────────────────────────────────────────────

/// What a frame of sound brought. A frame brings one event at most.
#[derive(Debug, Clone, Copy, PartialEq, Eq, Structural)]
pub enum EndpointEvent {
    /// The user has begun to talk.
    SpeechOnset,
    /// The user has been silent long enough: the utterance is over.
    SegmentClosed,
}

/// Finds where utterances begin and end.
#[derive(Debug, Clone, Copy, PartialEq, Eq, Structural)]
pub struct Endpointer {
    /// The silence that ends an utterance, in milliseconds.
    pub endpoint_silence_ms: u64,
    /// An utterance is under way.
    pub speaking: bool,
    /// How long the user has been silent within it.
    pub silence_ms: u64,
}

/// What a frame brings.
pub open spec fn endpoint_event(e: Endpointer, voiced: bool, frame_ms: u64) -> Option<
    EndpointEvent,
> {
    if !e.speaking {
        if voiced {
            Some(EndpointEvent::SpeechOnset)
        } else {
            None
        }
    } else if !voiced && e.silence_ms.saturating_add(frame_ms) >= e.endpoint_silence_ms {
        Some(EndpointEvent::SegmentClosed)
    } else {
        None
    }
}

/// What a frame leaves to the next: the silence of an utterance is counted from its
/// last voiced frame.
pub open spec fn endpoint_next(e: Endpointer, voiced: bool, frame_ms: u64) -> Endpointer {
    match endpoint_event(e, voiced, frame_ms) {
        Some(EndpointEvent::SpeechOnset) => Endpointer { speaking: true, silence_ms: 0, ..e },
        Some(EndpointEvent::SegmentClosed) => Endpointer { speaking: false, silence_ms: 0, ..e },
        None => if !e.speaking {
            e
        } else if voiced {
            Endpointer { silence_ms: 0, ..e }
        } else {
            Endpointer { silence_ms: e.silence_ms.saturating_add(frame_ms), ..e }
        },
    }
}

impl Endpointer {
    /// No utterance is under way.
    pub fn new(endpoint_silence_ms: u64) -> (r: Self)
        ensures
            r == (Endpointer { endpoint_silence_ms, speaking: false, silence_ms: 0 }),
    {
        Endpointer { endpoint_silence_ms, speaking: false, silence_ms: 0 }
    }

    /// Whether an utterance is under way.
    pub fn in_speech(&self) -> (r: bool)
        ensures
            r == self.speaking,
    {
        self.speaking
    }

    /// Forgets the utterance that is under way, without an event.
    pub fn reset(&mut self)
        ensures
            *final(self) == (Endpointer { speaking: false, silence_ms: 0, ..*old(self) }),
    {
        self.speaking = false;
        self.silence_ms = 0;
    }

    /// One frame of `frame_ms` milliseconds, which holds speech or not.
    pub fn step(&mut self, voiced: bool, frame_ms: u64) -> (r: Option<EndpointEvent>)
        ensures
            r == endpoint_event(*old(self), voiced, frame_ms),
            *final(self) == endpoint_next(*old(self), voiced, frame_ms),
    {
        if !self.speaking {
            if voiced {
                self.speaking = true;
                self.silence_ms = 0;
                return Some(EndpointEvent::SpeechOnset);
            }
            None
        } else if voiced {
            self.silence_ms = 0;
            None
        } else {
            self.silence_ms = self.silence_ms.saturating_add(frame_ms);
            if self.silence_ms >= self.endpoint_silence_ms {
                self.speaking = false;
                self.silence_ms = 0;
                Some(EndpointEvent::SegmentClosed)
            } else {
                None
            }
        }
    }
}

/// Beginnings and ends alternate: a beginning comes only between utterances and an end
/// only within one.
pub proof fn law_endpoints_alternate(e: Endpointer, voiced: bool, frame_ms: u64)
    ensures
        endpoint_event(e, voiced, frame_ms) == Some(EndpointEvent::SpeechOnset) ==> !e.speaking
            && endpoint_next(e, voiced, frame_ms).speaking,
        endpoint_event(e, voiced, frame_ms) == Some(EndpointEvent::SegmentClosed) ==> e.speaking
            && !endpoint_next(e, voiced, frame_ms).speaking,
        endpoint_event(e, voiced, frame_ms) is None ==> endpoint_next(e, voiced, frame_ms).speaking
            == e.speaking,
{
}

/// `n` silent frames of `frame_ms` each.
pub open spec fn after_silence(e: Endpointer, frame_ms: u64, n: nat) -> Endpointer
    decreases n,
{
    if n == 0 {
        e
    } else {
        endpoint_next(after_silence(e, frame_ms, (n - 1) as nat), false, frame_ms)
    }
}

/// A pause within an utterance does not end it, unless it lasts as long as the silence
/// that does: after a voiced frame, silent frames end the utterance with the first that
/// fills the silence.
pub proof fn law_pause_does_not_close(e: Endpointer, frame_ms: u64, n: nat)
    requires
        e.speaking,
        e.silence_ms == 0,
        n * frame_ms < e.endpoint_silence_ms,
    ensures
        after_silence(e, frame_ms, n) == (Endpointer { silence_ms: (n * frame_ms) as u64, ..e }),
        endpoint_event(after_silence(e, frame_ms, n), false, frame_ms) == (if (n + 1) * frame_ms
            >= e.endpoint_silence_ms {
            Some(EndpointEvent::SegmentClosed)
        } else {
            None
        }),
    decreases n,
{
    assert((n + 1) * frame_ms == n * frame_ms + frame_ms) by (nonlinear_arith);
    if n == 0 {
        assert(n * frame_ms == 0) by (nonlinear_arith)
            requires
                n == 0,
        ;
    } else {
        let m = (n - 1) as nat;
        assert(n * frame_ms == m * frame_ms + frame_ms) by (nonlinear_arith)
            requires
                n == m + 1,
        ;
        assert((m + 1) * frame_ms == n * frame_ms) by (nonlinear_arith)
            requires
                n == m + 1,
        ;
        law_pause_does_not_close(e, frame_ms, m);
    }
}

// ── Words ────────────────────────────────────────────────────────────────────

/// Where the run of characters other than white space that holds `i` ends.
pub open spec fn run_end(s: Seq<char>, i: int) -> int
    decreases s.len() - i,
{
    if 0 <= i < s.len() && !is_space(s[i]) {
        run_end(s, i + 1)
    } else {
        i
    }
}

/// The words of `s` from `from` on: each as where it begins and ends.
pub open spec fn words(s: Seq<char>, from: int) -> Seq<(int, int)>
    decreases s.len() - from,
    when 0 <= from
{
    if from >= s.len() {
        Seq::empty()
    } else if is_space(s[from]) {
        words(s, from + 1)
    } else {
        proof {
            lemma_run_end(s, from);
        }
        seq![(from, run_end(s, from))] + words(s, run_end(s, from))
    }
}

/// A run ends within the text, and holds the character that it starts at.
pub proof fn lemma_run_end(s: Seq<char>, i: int)
    requires
        0 <= i <= s.len(),
    ensures
        i <= run_end(s, i) <= s.len(),
        i < s.len() && !is_space(s[i]) ==> i < run_end(s, i),
    decreases s.len() - i,
{
    if i < s.len() && !is_space(s[i]) {
        lemma_run_end(s, i + 1);
    }
}

/// `t` without what is neither a letter nor a digit at its beginning.
pub open spec fn bare_start(t: Seq<char>) -> Seq<char>
    decreases t.len(),
{
    if t.len() > 0 && !is_alnum(t[0]) {
        bare_start(t.drop_first())
    } else {
        t
    }
}

/// `t` without what is neither a letter nor a digit at its end.
pub open spec fn bare_end(t: Seq<char>) -> Seq<char>
    decreases t.len(),
{
    if t.len() > 0 && !is_alnum(t.last()) {
        bare_end(t.drop_last())
    } else {
        t
    }
}

/// A word as it is compared: without punctuation around it, and in small letters.
pub open spec fn normal(t: Seq<char>) -> Seq<char> {
    lowercase(bare_end(bare_start(t)))
}

/// The words of `s` as they are compared.
pub open spec fn normal_words(s: Seq<char>) -> Seq<Seq<char>> {
    Seq::new(words(s, 0).len(), |i: int| normal(s.subrange(words(s, 0)[i].0, words(s, 0)[i].1)))
}

/// A word as it is compared.
pub fn normalize_token(t: &str) -> (r: String)
    ensures
        r@ == normal(t@),
{
    let v = chars_of(t);
    let mut i: usize = 0;
    assert(v@.subrange(0, v.len() as int) =~= v@);
    while i < v.len() && !v[i].is_alphanumeric()
        invariant
            i <= v.len(),
            bare_start(v@) == bare_start(v@.subrange(i as int, v.len() as int)),
        decreases v.len() - i,
    {
        assert(v@.subrange(i as int, v.len() as int).drop_first() =~= v@.subrange(
            i + 1,
            v.len() as int,
        ));
        i += 1;
    }
    let mut j: usize = v.len();
    let ghost rest = v@.subrange(i as int, v.len() as int);
    while j > i && !v[j - 1].is_alphanumeric()
        invariant
            i <= j <= v.len(),
            bare_end(rest) == bare_end(v@.subrange(i as int, j as int)),
        decreases j - i,
    {
        assert(v@.subrange(i as int, j as int).drop_last() =~= v@.subrange(i as int, j - 1));
        j -= 1;
    }
    text_of(&v, i, j).as_str().to_lowercase()
}

/// The first words of a list, as mathematical positions.
spec fn places(v: Seq<(usize, usize)>) -> Seq<(int, int)> {
    Seq::new(v.len(), |i: int| (v[i].0 as int, v[i].1 as int))
}

/// Where the words of `v` begin and end.
fn word_places(v: &Vec<char>) -> (r: Vec<(usize, usize)>)
    ensures
        places(r@) == words(v@, 0),
        forall|i: int| 0 <= i < r@.len() ==> (#[trigger] r@[i]).0 <= r@[i].1 <= v@.len(),
{
    let mut out: Vec<(usize, usize)> = Vec::new();
    let mut i: usize = 0;
    assert(places(out@) + words(v@, 0) =~= words(v@, 0));
    while i < v.len()
        invariant
            i <= v.len(),
            words(v@, 0) == places(out@) + words(v@, i as int),
            forall|k: int| 0 <= k < out@.len() ==> (#[trigger] out@[k]).0 <= out@[k].1 <= v@.len(),
        decreases v.len() - i,
    {
        if v[i].is_whitespace() {
            i += 1;
        } else {
            let start: usize = i;
            while i < v.len() && !v[i].is_whitespace()
                invariant
                    start <= i <= v.len(),
                    run_end(v@, start as int) == run_end(v@, i as int),
                decreases v.len() - i,
            {
                i += 1;
            }
            let ghost before = out@;
            out.push((start, i));
            proof {
                lemma_run_end(v@, start as int);
                assert(run_end(v@, start as int) == i);
                assert(places(out@) =~= places(before).push((start as int, i as int)));
                assert(places(before) + (seq![(start as int, i as int)] + words(v@, i as int))
                    =~= places(out@) + words(v@, i as int));
            }
        }
    }
    assert(places(out@) + words(v@, i as int) =~= places(out@));
    out
}

/// The words of `v`, given their places, as they are compared.
fn words_at(v: &Vec<char>, at: &Vec<(usize, usize)>) -> (r: Vec<String>)
    requires
        places(at@) == words(v@, 0),
        forall|i: int| 0 <= i < at@.len() ==> (#[trigger] at@[i]).0 <= at@[i].1 <= v@.len(),
    ensures
        texts(r@) == normal_words(v@),
{
    let mut out: Vec<String> = Vec::new();
    let mut i: usize = 0;
    assert(texts(out@) =~= normal_words(v@).take(0));
    while i < at.len()
        invariant
            i <= at.len(),
            places(at@) == words(v@, 0),
            forall|k: int| 0 <= k < at@.len() ==> (#[trigger] at@[k]).0 <= at@[k].1 <= v@.len(),
            texts(out@) == normal_words(v@).take(i as int),
        decreases at.len() - i,
    {
        let (from, to) = at[i];
        let ghost before = texts(out@);
        let word = text_of(v, from, to);
        let n = normalize_token(word.as_str());
        out.push(n);
        proof {
            assert(places(at@)[i as int] == words(v@, 0)[i as int]);
            assert(texts(out@) =~= before.push(n@));
            assert(normal_words(v@).take(i + 1) =~= normal_words(v@).take(i as int).push(n@));
        }
        i += 1;
    }
    assert(normal_words(v@).take(i as int) =~= normal_words(v@));
    out
}

/// Whether `list` ends with `tail`, which is not empty.
pub open spec fn ends_with_words(list: Seq<Seq<char>>, tail: Seq<Seq<char>>) -> bool {
    0 < tail.len() <= list.len() && list.skip(list.len() - tail.len()) == tail
}

/// Where `tail` begins in `list`, where `list` ends with it and it is not empty.
pub fn match_tail(list: &Vec<String>, tail: &Vec<String>) -> (r: Option<usize>)
    ensures
        r is Some <==> ends_with_words(texts(list@), texts(tail@)),
        r is Some ==> r->0 == list@.len() - tail@.len(),
{
    if tail.len() == 0 || list.len() < tail.len() {
        return None;
    }
    let base: usize = list.len() - tail.len();
    let mut i: usize = 0;
    while i < tail.len()
        invariant
            i <= tail.len() <= list.len(),
            base == list.len() - tail.len(),
            forall|k: int| 0 <= k < i ==> list@[base + k]@ == (#[trigger] tail@[k])@,
        decreases tail.len() - i,
    {
        if !same_text(list[base + i].as_str(), tail[i].as_str()) {
            assert(texts(list@).skip(base as int)[i as int] != texts(tail@)[i as int]);
            return None;
        }
        i += 1;
    }
    assert forall|k: int| 0 <= k < tail@.len() implies texts(list@).skip(base as int)[k] == texts(
        tail@,
    )[k] by {
        assert(list@[base + k]@ == tail@[k]@);
    }
    assert(texts(list@).skip(base as int) =~= texts(tail@));
    Some(base)
}

/// Whether a word is left once it is made comparable.
pub open spec fn is_word(t: Seq<char>) -> bool {
    t.len() > 0
}

/// The words of a phrase as they are compared; punctuation alone is none.
pub open spec fn phrase_words(word: Seq<char>) -> Seq<Seq<char>> {
    normal_words(word).filter(|t: Seq<char>| is_word(t))
}

/// The words of a phrase as they are compared; punctuation alone is none.
fn phrase(word: &str) -> (r: Vec<String>)
    ensures
        texts(r@) == phrase_words(word@),
{
    let v = chars_of(word);
    let at = word_places(&v);
    let all = words_at(&v, &at);
    let ghost keep = |t: Seq<char>| is_word(t);
    let ghost list = texts(all@);
    let mut out: Vec<String> = Vec::new();
    let mut i: usize = 0;
    proof {
        crate::seqs::lemma_filter_none(list, keep);
        assert(texts(out@) =~= list.take(0).filter(keep));
    }
    while i < all.len()
        invariant
            i <= all.len(),
            list == texts(all@),
            keep == (|t: Seq<char>| is_word(t)),
            texts(out@) == list.take(i as int).filter(keep),
        decreases all.len() - i,
    {
        proof {
            crate::seqs::lemma_filter_step(list, i as int, keep);
        }
        let w = all[i].as_str();
        if !w.is_empty() {
            let ghost before = texts(out@);
            out.push(w.to_owned());
            assert(texts(out@) =~= before.push(w@));
        }
        i += 1;
    }
    assert(list.take(i as int) =~= list);
    out
}

// ── Stop words ───────────────────────────────────────────────────────────────

/// Whether a transcript ends with a stop word, and what stands before it.
#[derive(Debug, PartialEq, Eq)]
pub struct SubmitMatch {
    pub matched: bool,
    /// What stands before the stop word; the whole transcript where there is none.
    pub content_before: String,
}

/// Whether the last words of `t` are those of `word`.
pub open spec fn stops(t: Seq<char>, word: Seq<char>) -> bool {
    ends_with_words(normal_words(t), phrase_words(word))
}

/// What stands before a stop word.
pub open spec fn before_stop(t: Seq<char>, word: Seq<char>) -> Seq<char> {
    let n = words(t, 0).len() - phrase_words(word).len();
    trim_end(t.take(words(t, 0)[n].0))
}

/// Whether a transcript ends with `word`, which may be several words: its last words
/// must be those, whatever their case and the punctuation around them. An empty word is
/// never found.
pub fn match_submit_word(transcript: &str, word: &str) -> (r: SubmitMatch)
    ensures
        r.matched == stops(trim(transcript@), word@),
        r.content_before@ == (if r.matched {
            before_stop(trim(transcript@), word@)
        } else {
            trim(transcript@)
        }),
{
    let t = trimmed(transcript);
    let want = phrase(word);
    let v = chars_of(t.as_str());
    let at = word_places(&v);
    let got = words_at(&v, &at);
    match match_tail(&got, &want) {
        None => SubmitMatch { matched: false, content_before: t },
        Some(n) => {
            proof {
                assert(texts(got@).len() == words(t@, 0).len());
                assert(places(at@)[n as int] == words(t@, 0)[n as int]);
                assert(at@[n as int].0 <= at@[n as int].1);
            }
            let cut: usize = at[n].0;
            let head = text_of(&v, 0, cut);
            assert(v@.subrange(0, cut as int) =~= t@.take(cut as int));
            SubmitMatch { matched: true, content_before: trimmed_end(head.as_str()) }
        },
    }
}

/// Words at other places: each `by` characters further on.
spec fn moved(list: Seq<(int, int)>, by: int) -> Seq<(int, int)> {
    Seq::new(list.len(), |i: int| (list[i].0 + by, list[i].1 + by))
}

proof fn lemma_run_end_moved(x: Seq<char>, t: Seq<char>, i: int)
    requires
        0 <= i <= t.len(),
    ensures
        run_end(x + t, x.len() + i) == x.len() + run_end(t, i),
    decreases t.len() - i,
{
    if i < t.len() {
        assert((x + t)[x.len() + i] == t[i]);
        if !is_space(t[i]) {
            lemma_run_end_moved(x, t, i + 1);
        }
    }
}

/// The words of a text stay its words when something is put in front of it.
proof fn lemma_words_moved(x: Seq<char>, t: Seq<char>, i: int)
    requires
        0 <= i <= t.len(),
    ensures
        words(x + t, x.len() + i) == moved(words(t, i), x.len() as int),
    decreases t.len() - i,
{
    let by = x.len() as int;
    if i < t.len() {
        assert((x + t)[by + i] == t[i]);
        if is_space(t[i]) {
            lemma_words_moved(x, t, i + 1);
        } else {
            lemma_run_end(t, i);
            lemma_run_end_moved(x, t, i);
            lemma_words_moved(x, t, run_end(t, i));
        }
    }
    assert(words(x + t, by + i) =~= moved(words(t, i), by));
}

/// A run before white space is the same whatever follows that.
proof fn lemma_run_end_before(x: Seq<char>, t: Seq<char>, i: int)
    requires
        0 <= i < x.len(),
        is_space(x.last()),
    ensures
        run_end(x + t, i) == run_end(x, i),
    decreases x.len() - i,
{
    assert((x + t)[i] == x[i]);
    if !is_space(x[i]) {
        lemma_run_end_before(x, t, i + 1);
    }
}

/// The words of two pieces are those of the one and then those of the other, where white
/// space stands between them.
proof fn lemma_words_joined(x: Seq<char>, t: Seq<char>, i: int)
    requires
        0 <= i <= x.len(),
        x.len() == 0 || is_space(x.last()),
    ensures
        words(x + t, i) == words(x, i) + moved(words(t, 0), x.len() as int),
    decreases x.len() - i,
{
    if i == x.len() {
        lemma_words_moved(x, t, 0);
    } else {
        assert((x + t)[i] == x[i]);
        if is_space(x[i]) {
            lemma_words_joined(x, t, i + 1);
        } else {
            lemma_run_end(x, i);
            lemma_run_end_before(x, t, i);
            lemma_words_joined(x, t, run_end(x, i));
        }
    }
    assert(words(x + t, i) =~= words(x, i) + moved(words(t, 0), x.len() as int));
}

/// Each word lies within the text, and the words are in order.
proof fn lemma_words_within(s: Seq<char>, from: int, i: int)
    requires
        0 <= from <= s.len(),
        0 <= i < words(s, from).len(),
    ensures
        from <= words(s, from)[i].0 <= words(s, from)[i].1 <= s.len(),
    decreases s.len() - from,
{
    if is_space(s[from]) {
        lemma_words_within(s, from + 1, i);
    } else {
        lemma_run_end(s, from);
        if i > 0 {
            lemma_words_within(s, run_end(s, from), i - 1);
            assert(words(s, from)[i] == words(s, run_end(s, from))[i - 1]);
        }
    }
}

/// A stop word at the end of a transcript is found there whatever is said before it, and
/// what is said before it is content.
pub proof fn law_talk_before_a_stop_word_is_content(p: Seq<char>, t: Seq<char>, word: Seq<char>)
    requires
        trim(t) == t,
        stops(t, word),
    ensures
        stops(trim(p.push(' ') + t), word),
        before_stop(trim(p.push(' ') + t), word) == trim(p.push(' ') + before_stop(t, word)),
{
    let gap = p.push(' ');
    let x = trim_start(gap);
    let q = x + t;
    let n = words(t, 0).len() - phrase_words(word).len();
    lemma_trim(t);
    lemma_trim_start(gap);
    lemma_trim_start_before(gap, t);
    lemma_trim_end_after(x, t);
    assert(trim(gap + t) == q);
    assert(x.len() == 0 || is_space(x.last()));
    lemma_words_joined(x, t, 0);
    let first = words(x, 0).len() as int;
    assert forall|i: int| 0 <= i < words(t, 0).len() implies #[trigger] normal_words(q)[first + i]
        == normal_words(t)[i] by {
        lemma_words_within(t, 0, i);
        let (from, to) = words(t, 0)[i];
        assert(words(q, 0)[first + i] == (from + x.len(), to + x.len()));
        assert(q.subrange(from + x.len(), to + x.len()) =~= t.subrange(from, to));
    }
    let tail = phrase_words(word);
    assert forall|i: int| 0 <= i < tail.len() implies normal_words(q).skip(first + n)[i]
        == tail[i] by {
        assert(normal_words(t).skip(n)[i] == tail[i]);
        assert(normal_words(q)[first + (n + i)] == normal_words(t)[n + i]);
    }
    assert(normal_words(q).skip(first + n) =~= tail);
    lemma_words_within(t, 0, n);
    let cut = words(t, 0)[n].0;
    assert(words(q, 0)[first + n].0 == x.len() + cut);
    assert(q.take(x.len() + cut) =~= x + t.take(cut));
    let before = before_stop(t, word);
    lemma_trim_end_after(x, t.take(cut));
    lemma_trim_end(t.take(cut));
    if before.len() > 0 {
        lemma_trim_start_before(gap, before);
        lemma_trim_end_after(x, before);
        lemma_trim_end(before);
    } else {
        assert(gap + before =~= gap);
    }
}

// ── The start word ───────────────────────────────────────────────────────────

/// The edit distance of two texts: how many characters must be put in, taken out or
/// replaced, at the least, to make one out of the other.
pub open spec fn edit_distance(a: Seq<char>, b: Seq<char>) -> nat
    decreases a.len() + b.len(),
{
    if a.len() == 0 {
        b.len()
    } else if b.len() == 0 {
        a.len()
    } else {
        let drop = edit_distance(a.drop_last(), b) + 1;
        let put = edit_distance(a, b.drop_last()) + 1;
        let swap = edit_distance(a.drop_last(), b.drop_last()) + (if a.last() == b.last() {
            0nat
        } else {
            1nat
        });
        least(least(drop, put), swap)
    }
}

/// The lesser of two numbers.
pub open spec fn least(x: nat, y: nat) -> nat {
    if x <= y {
        x
    } else {
        y
    }
}

/// The edit distance is at most the length of the longer text, and at least the
/// difference of the lengths.
pub proof fn law_distance_is_bounded(a: Seq<char>, b: Seq<char>)
    ensures
        edit_distance(a, b) <= a.len() || edit_distance(a, b) <= b.len(),
        a.len() <= b.len() + edit_distance(a, b),
        b.len() <= a.len() + edit_distance(a, b),
    decreases a.len() + b.len(),
{
    if a.len() > 0 && b.len() > 0 {
        law_distance_is_bounded(a.drop_last(), b);
        law_distance_is_bounded(a, b.drop_last());
        law_distance_is_bounded(a.drop_last(), b.drop_last());
    }
}

/// A detour over a third text is never shorter than the edit distance of two.
pub proof fn law_distance_takes_no_detour(a: Seq<char>, b: Seq<char>, c: Seq<char>)
    ensures
        edit_distance(a, c) <= edit_distance(a, b) + edit_distance(b, c),
    decreases a.len() + b.len() + c.len(),
{
    if a.len() == 0 || b.len() == 0 || c.len() == 0 {
        law_distance_is_bounded(a, b);
        law_distance_is_bounded(b, c);
        law_distance_is_bounded(a, c);
    } else {
        law_distance_takes_no_detour(a.drop_last(), b, c);
        law_distance_takes_no_detour(a, b, c.drop_last());
        law_distance_takes_no_detour(a, b.drop_last(), c);
        law_distance_takes_no_detour(a, b.drop_last(), c.drop_last());
        law_distance_takes_no_detour(a.drop_last(), b.drop_last(), c);
        law_distance_takes_no_detour(a.drop_last(), b.drop_last(), c.drop_last());
    }
}

/// The edit distance is the same in both directions.
pub proof fn law_distance_is_symmetric(a: Seq<char>, b: Seq<char>)
    ensures
        edit_distance(a, b) == edit_distance(b, a),
    decreases a.len() + b.len(),
{
    if a.len() > 0 && b.len() > 0 {
        law_distance_is_symmetric(a.drop_last(), b);
        law_distance_is_symmetric(a, b.drop_last());
        law_distance_is_symmetric(a.drop_last(), b.drop_last());
    }
}

/// The edit distance is zero between equal texts, and between no others.
pub proof fn law_distance_is_zero_of_equals(a: Seq<char>, b: Seq<char>)
    ensures
        edit_distance(a, b) == 0 <==> a == b,
    decreases a.len() + b.len(),
{
    if a.len() == 0 || b.len() == 0 {
        if edit_distance(a, b) == 0 {
            assert(a =~= b);
        }
    } else {
        law_distance_is_zero_of_equals(a.drop_last(), b.drop_last());
        if edit_distance(a, b) == 0 {
            assert(a =~= a.drop_last().push(a.last()));
            assert(b =~= b.drop_last().push(b.last()));
        }
    }
}

/// The edit distance of two texts; see [`edit_distance`].
pub fn levenshtein(a: &str, b: &str) -> (r: u128)
    ensures
        r == edit_distance(a@, b@),
{
    let x = chars_of(a);
    let y = chars_of(b);
    // row[j] is the distance of the first i characters of a and the first j + 1 of b.
    let mut row: Vec<u128> = Vec::new();
    let mut j: usize = 0;
    while j < y.len()
        invariant
            j <= y.len(),
            row@.len() == j,
            forall|k: int| 0 <= k < j ==> #[trigger] row@[k] == k + 1,
        decreases y.len() - j,
    {
        row.push(j as u128 + 1);
        j += 1;
    }
    proof {
        assert forall|k: int| 0 <= k < y@.len() implies #[trigger] row@[k] == edit_distance(
            x@.take(0),
            y@.take(k + 1),
        ) by {}
    }
    let mut i: usize = 0;
    while i < x.len()
        invariant
            i <= x.len(),
            row@.len() == y@.len(),
            forall|k: int|
                0 <= k < y@.len() ==> #[trigger] row@[k] == edit_distance(
                    x@.take(i as int),
                    y@.take(k + 1),
                ),
        decreases x.len() - i,
    {
        let ghost above = row@;
        let mut diagonal: u128 = i as u128;
        let mut left: u128 = i as u128 + 1;
        let mut k: usize = 0;
        proof {
            law_distance_is_bounded(x@.take(i as int), y@.take(0));
            law_distance_is_bounded(x@.take(i + 1), y@.take(0));
        }
        while k < y.len()
            invariant
                i < x.len(),
                k <= y.len(),
                row@.len() == y@.len(),
                above.len() == y@.len(),
                diagonal == edit_distance(x@.take(i as int), y@.take(k as int)),
                left == edit_distance(x@.take(i + 1), y@.take(k as int)),
                forall|m: int|
                    0 <= m < y@.len() ==> #[trigger] above[m] == edit_distance(
                        x@.take(i as int),
                        y@.take(m + 1),
                    ),
                forall|m: int| k <= m < y@.len() ==> #[trigger] row@[m] == above[m],
                forall|m: int|
                    0 <= m < k ==> #[trigger] row@[m] == edit_distance(
                        x@.take(i + 1),
                        y@.take(m + 1),
                    ),
            decreases y.len() - k,
        {
            let up: u128 = row[k];
            proof {
                assert(row@[k as int] == above[k as int]);
                law_distance_is_bounded(x@.take(i as int), y@.take(k as int));
                law_distance_is_bounded(x@.take(i + 1), y@.take(k as int));
                law_distance_is_bounded(x@.take(i as int), y@.take(k + 1));
                assert(x@.take(i + 1).drop_last() =~= x@.take(i as int));
                assert(y@.take(k + 1).drop_last() =~= y@.take(k as int));
            }
            let cost: u128 = if x[i] == y[k] {
                0
            } else {
                1
            };
            let mut best: u128 = up + 1;
            if left + 1 < best {
                best = left + 1;
            }
            if diagonal + cost < best {
                best = diagonal + cost;
            }
            row.set(k, best);
            diagonal = up;
            left = best;
            k += 1;
        }
        i += 1;
    }
    proof {
        assert(x@.take(i as int) =~= x@);
        assert(y@.take(y@.len() as int) =~= y@);
        law_distance_is_bounded(x@, y@);
    }
    if y.len() == 0 {
        x.len() as u128
    } else {
        row[y.len() - 1]
    }
}

/// How far a word may be from the start word and still count as it.
pub const START_TOLERANCE: u128 = 2;

/// Whether a word counts as the start word: transcription garbles a name.
pub open spec fn sounds_like(got: Seq<char>, want: Seq<char>) -> bool {
    got.len() > 0 && edit_distance(got, want) <= START_TOLERANCE
}

/// The position of the first word of `list` that counts as `want`.
pub fn find_start(list: &Vec<String>, want: &str) -> (r: Option<usize>)
    ensures
        match r {
            Some(n) => n < list@.len() && sounds_like(list@[n as int]@, want@) && (forall|k: int|
                0 <= k < n ==> !sounds_like((#[trigger] list@[k])@, want@)),
            None => forall|k: int|
                0 <= k < list@.len() ==> !sounds_like((#[trigger] list@[k])@, want@),
        },
{
    let mut i: usize = 0;
    while i < list.len()
        invariant
            i <= list.len(),
            forall|k: int| 0 <= k < i ==> !sounds_like((#[trigger] list@[k])@, want@),
        decreases list.len() - i,
    {
        let got = list[i].as_str();
        if !got.is_empty() && levenshtein(got, want) <= START_TOLERANCE {
            return Some(i);
        }
        i += 1;
    }
    None
}

/// The position of the first word that counts as `want`, or the number of words.
pub open spec fn start_place(list: Seq<Seq<char>>, want: Seq<char>) -> int
    decreases list.len(),
{
    if list.len() == 0 || sounds_like(list[0], want) {
        0
    } else {
        1 + start_place(list.drop_first(), want)
    }
}

proof fn lemma_start_place(list: Seq<Seq<char>>, want: Seq<char>, n: int)
    requires
        0 <= n <= list.len(),
        forall|k: int| 0 <= k < n ==> !sounds_like(#[trigger] list[k], want),
        n < list.len() ==> sounds_like(list[n], want),
    ensures
        start_place(list, want) == n,
    decreases list.len(),
{
    if n > 0 {
        assert(!sounds_like(list[0], want));
        let rest = list.drop_first();
        assert forall|k: int| 0 <= k < n - 1 implies !sounds_like(#[trigger] rest[k], want) by {
            assert(rest[k] == list[k + 1]);
        }
        lemma_start_place(rest, want, n - 1);
    }
}

/// What follows the start word in a transcript, where it holds that word.
pub open spec fn after_start(t: Seq<char>, word: Seq<char>) -> Option<Seq<char>> {
    let want = normal(word);
    let n = start_place(normal_words(t), want);
    if want.len() == 0 || n >= words(t, 0).len() {
        None
    } else if n + 1 < words(t, 0).len() {
        Some(trim(t.skip(words(t, 0)[n + 1].0)))
    } else {
        Some(Seq::empty())
    }
}

/// What follows the start word in a transcript, where it holds that word: anywhere,
/// whatever its case and the punctuation around it, and although it is somewhat
/// garbled. An empty word is never found.
pub fn match_start_word(transcript: &str, word: &str) -> (r: Option<String>)
    ensures
        match r {
            Some(rest) => Some(rest@),
            None => None,
        } == after_start(trim(transcript@), word@),
{
    let t = trimmed(transcript);
    let want = normalize_token(word);
    if want.as_str().is_empty() {
        return None;
    }
    let v = chars_of(t.as_str());
    let at = word_places(&v);
    let got = words_at(&v, &at);
    let found = find_start(&got, want.as_str());
    proof {
        let list = texts(got@);
        let n: int = match found {
            Some(n) => n as int,
            None => got@.len() as int,
        };
        assert forall|k: int| 0 <= k < n implies !sounds_like(#[trigger] list[k], want@) by {
            assert(list[k] == got@[k]@);
        }
        lemma_start_place(list, want@, n);
        assert(list.len() == words(t@, 0).len());
    }
    match found {
        None => None,
        Some(n) => {
            if n + 1 < at.len() {
                proof {
                    assert(places(at@)[n + 1] == words(t@, 0)[n + 1]);
                    assert(at@[n + 1].0 <= at@[n + 1].1);
                }
                let start: usize = at[n + 1].0;
                let rest = text_of(&v, start, v.len());
                assert(v@.subrange(start as int, v@.len() as int) =~= t@.skip(start as int));
                Some(trimmed(rest.as_str()))
            } else {
                Some(String::new())
            }
        },
    }
}

// ── Turns ────────────────────────────────────────────────────────────────────

/// What the end of a turn calls for.
#[derive(Debug, PartialEq, Eq)]
pub enum TurnAction {
    /// Paste this text into the prompt and press Enter.
    SubmitText(String),
    /// Drop what was captured.
    Cancel,
}

/// A [`TurnAction`] by its characters.
pub enum ActionView {
    SubmitText(Seq<char>),
    Cancel,
}

impl View for TurnAction {
    type V = ActionView;

    open spec fn view(&self) -> ActionView {
        match self {
            TurnAction::SubmitText(t) => ActionView::SubmitText(t@),
            TurnAction::Cancel => ActionView::Cancel,
        }
    }
}

/// Actions by their characters.
pub open spec fn action_views(v: Seq<TurnAction>) -> Seq<ActionView> {
    Seq::new(v.len(), |i: int| v[i]@)
}

/// Which stop word was heard.
#[derive(Debug, Clone, Copy, PartialEq, Eq, Structural)]
pub enum PendingKind {
    Submit,
    Cancel,
}

struct Pending {
    kind: PendingKind,
    word: String,
    elapsed_ms: u64,
}

/// A stop word that waits for silence.
pub struct PendingView {
    /// Which one it is.
    pub kind: PendingKind,
    /// The word itself: it is content if the user goes on talking.
    pub word: Seq<char>,
    /// How long the user has been silent.
    pub elapsed_ms: u64,
}

/// A hands-free turn: it is opened by the start word, gathers what is said, and is
/// closed by a stop word that is followed by silence.
pub struct TurnLogic {
    start_word: String,
    submit_word: String,
    cancel_word: String,
    confirm_ms: u64,
    capturing: bool,
    buffer: String,
    pending: Option<Pending>,
}

/// A [`TurnLogic`] as a mathematical value.
#[verifier::ext_equal]
pub struct TurnView {
    pub start_word: Seq<char>,
    pub submit_word: Seq<char>,
    pub cancel_word: Seq<char>,
    /// The silence that confirms a stop word, in milliseconds.
    pub confirm_ms: u64,
    /// The turn is open.
    pub capturing: bool,
    /// What was gathered.
    pub buffer: Seq<char>,
    /// The stop word that waits for silence.
    pub pending: Option<PendingView>,
}

impl View for TurnLogic {
    type V = TurnView;

    closed spec fn view(&self) -> TurnView {
        TurnView {
            start_word: self.start_word@,
            submit_word: self.submit_word@,
            cancel_word: self.cancel_word@,
            confirm_ms: self.confirm_ms,
            capturing: self.capturing,
            buffer: self.buffer@,
            pending: match self.pending {
                Some(p) => Some(
                    PendingView { kind: p.kind, word: p.word@, elapsed_ms: p.elapsed_ms },
                ),
                None => None,
            },
        }
    }
}

/// Text with more text appended, a space between them.
pub open spec fn appended(buffer: Seq<char>, text: Seq<char>) -> Seq<char> {
    let t = trim(text);
    if t.len() == 0 {
        buffer
    } else if buffer.len() == 0 {
        t
    } else {
        buffer.push(' ') + t
    }
}

/// A turn that is closed.
pub open spec fn closed_turn(v: TurnView) -> TurnView {
    TurnView { capturing: false, buffer: Seq::empty(), pending: None, ..v }
}

/// What was heard in an utterance.
#[derive(Debug, PartialEq, Eq)]
pub enum Heard {
    /// Nothing that matters.
    Nothing,
    /// The start word, and what followed it.
    Start(String),
    /// A stop word, and what stood before it.
    Stop(PendingKind, String),
    /// Something to gather.
    Text(String),
}

/// A [`Heard`] by its characters.
pub enum HeardView {
    Nothing,
    Start(Seq<char>),
    Stop(PendingKind, Seq<char>),
    Text(Seq<char>),
}

impl View for Heard {
    type V = HeardView;

    open spec fn view(&self) -> HeardView {
        match self {
            Heard::Nothing => HeardView::Nothing,
            Heard::Start(t) => HeardView::Start(t@),
            Heard::Stop(k, t) => HeardView::Stop(*k, t@),
            Heard::Text(t) => HeardView::Text(t@),
        }
    }
}

/// What was heard in an utterance: the start word while the turn is closed, a stop word
/// or more text while it is open.
pub open spec fn heard_in(v: TurnView, transcript: Seq<char>) -> HeardView {
    let text = trim(transcript);
    if text.len() == 0 {
        HeardView::Nothing
    } else if !v.capturing {
        match after_start(trim(text), v.start_word) {
            Some(rest) => HeardView::Start(rest),
            None => HeardView::Nothing,
        }
    } else if stops(trim(text), v.submit_word) {
        HeardView::Stop(PendingKind::Submit, before_stop(trim(text), v.submit_word))
    } else if stops(trim(text), v.cancel_word) {
        HeardView::Stop(PendingKind::Cancel, before_stop(trim(text), v.cancel_word))
    } else {
        HeardView::Text(text)
    }
}

/// The turn once something was heard.
pub open spec fn turn_after(v: TurnView, heard: HeardView) -> TurnView {
    let w = TurnView { pending: None, ..v };
    match heard {
        HeardView::Nothing => w,
        HeardView::Start(rest) => TurnView {
            capturing: true,
            buffer: appended(Seq::empty(), rest),
            ..w
        },
        HeardView::Stop(kind, before) => TurnView {
            buffer: appended(v.buffer, before),
            pending: Some(
                PendingView {
                    kind,
                    word: match kind {
                        PendingKind::Submit => v.submit_word,
                        PendingKind::Cancel => v.cancel_word,
                    },
                    elapsed_ms: 0,
                },
            ),
            ..w
        },
        HeardView::Text(text) => TurnView { buffer: appended(v.buffer, text), ..w },
    }
}

/// The turn once the user has begun to talk again: a stop word that waited was content.
pub open spec fn turn_resumed(v: TurnView) -> TurnView {
    match v.pending {
        Some(p) => TurnView { buffer: appended(v.buffer, p.word), pending: None, ..v },
        None => v,
    }
}

/// Whether `dt_ms` more of silence confirm the stop word that waits.
pub open spec fn confirms(v: TurnView, dt_ms: u64) -> bool {
    v.pending is Some && v.pending->0.elapsed_ms.saturating_add(dt_ms) >= v.confirm_ms
}

/// The turn after `dt_ms` of silence.
pub open spec fn turn_silent(v: TurnView, dt_ms: u64) -> TurnView {
    match v.pending {
        None => v,
        Some(p) => if confirms(v, dt_ms) {
            closed_turn(v)
        } else {
            TurnView {
                pending: Some(
                    PendingView { elapsed_ms: p.elapsed_ms.saturating_add(dt_ms), ..p },
                ),
                ..v
            }
        },
    }
}

/// What `dt_ms` of silence call for: a confirmed submit pastes what was gathered, where
/// there is anything, and a confirmed cancel drops it.
pub open spec fn silence_actions(v: TurnView, dt_ms: u64) -> Seq<ActionView> {
    if !confirms(v, dt_ms) {
        Seq::empty()
    } else {
        match v.pending->0.kind {
            PendingKind::Cancel => seq![ActionView::Cancel],
            PendingKind::Submit => if trim(v.buffer).len() > 0 {
                seq![ActionView::SubmitText(trim(v.buffer))]
            } else {
                Seq::empty()
            },
        }
    }
}

impl TurnLogic {
    /// A turn that is closed.
    pub fn new(start_word: &str, submit_word: &str, cancel_word: &str, confirm_ms: u64) -> (r: Self)
        ensures
            r@ == (TurnView {
                start_word: start_word@,
                submit_word: submit_word@,
                cancel_word: cancel_word@,
                confirm_ms,
                capturing: false,
                buffer: Seq::empty(),
                pending: None,
            }),
    {
        TurnLogic {
            start_word: start_word.to_owned(),
            submit_word: submit_word.to_owned(),
            cancel_word: cancel_word.to_owned(),
            confirm_ms,
            capturing: false,
            buffer: String::new(),
            pending: None,
        }
    }

    /// Whether the turn is open.
    pub fn capturing(&self) -> (r: bool)
        ensures
            r == self@.capturing,
    {
        self.capturing
    }

    /// What was gathered.
    pub fn buffer(&self) -> (r: &str)
        ensures
            r@ == self@.buffer,
    {
        self.buffer.as_str()
    }

    /// Gathers more text.
    fn append(&mut self, text: &str)
        ensures
            final(self)@ == (TurnView {
                buffer: appended(old(self)@.buffer, text@),
                ..old(self)@
            }),
    {
        let t = trimmed(text);
        if t.as_str().is_empty() {
            return;
        }
        if !self.buffer.as_str().is_empty() {
            self.buffer.push(' ');
            self.buffer.append(t.as_str());
        } else {
            self.buffer = t;
        }
    }

    /// What was heard in an utterance.
    pub fn classify(&self, transcript: &str) -> (r: Heard)
        ensures
            r@ == heard_in(self@, transcript@),
    {
        let text = trimmed(transcript);
        if text.as_str().is_empty() {
            return Heard::Nothing;
        }
        if !self.capturing {
            return match match_start_word(text.as_str(), self.start_word.as_str()) {
                Some(rest) => Heard::Start(rest),
                None => Heard::Nothing,
            };
        }
        let submit = match_submit_word(text.as_str(), self.submit_word.as_str());
        if submit.matched {
            return Heard::Stop(PendingKind::Submit, submit.content_before);
        }
        let cancel = match_submit_word(text.as_str(), self.cancel_word.as_str());
        if cancel.matched {
            return Heard::Stop(PendingKind::Cancel, cancel.content_before);
        }
        Heard::Text(text)
    }

    /// Something was heard.
    pub fn hear(&mut self, heard: Heard)
        ensures
            final(self)@ == turn_after(old(self)@, heard@),
    {
        self.pending = None;
        match heard {
            Heard::Nothing => {},
            Heard::Start(rest) => {
                self.capturing = true;
                self.buffer = String::new();
                self.append(rest.as_str());
            },
            Heard::Stop(kind, before) => {
                self.append(before.as_str());
                let word = match kind {
                    PendingKind::Submit => self.submit_word.as_str().to_owned(),
                    PendingKind::Cancel => self.cancel_word.as_str().to_owned(),
                };
                self.pending = Some(Pending { kind, word, elapsed_ms: 0 });
            },
            Heard::Text(text) => {
                self.append(text.as_str());
            },
        }
    }

    /// An utterance was transcribed. While the turn is closed, the start word opens it
    /// with what follows; while it is open, what is said is gathered, and a stop word at
    /// its end begins to wait for silence. An utterance alone calls for no action.
    pub fn on_segment(&mut self, transcript: &str) -> (r: Vec<TurnAction>)
        ensures
            final(self)@ == turn_after(old(self)@, heard_in(old(self)@, transcript@)),
            r@.len() == 0,
    {
        let heard = self.classify(transcript);
        self.hear(heard);
        Vec::new()
    }

    /// The user has begun to talk: a stop word that waits for silence was content, and
    /// is gathered. This calls for no action.
    pub fn on_speech_onset(&mut self) -> (r: Vec<TurnAction>)
        ensures
            final(self)@ == turn_resumed(old(self)@),
            r@.len() == 0,
    {
        match self.pending.take() {
            Some(p) => {
                self.append(p.word.as_str());
            },
            None => {},
        }
        Vec::new()
    }

    /// `dt_ms` of silence have passed. A stop word that has waited long enough closes
    /// the turn.
    pub fn on_tick(&mut self, dt_ms: u64) -> (r: Vec<TurnAction>)
        ensures
            final(self)@ == turn_silent(old(self)@, dt_ms),
            action_views(r@) == silence_actions(old(self)@, dt_ms),
    {
        let mut out: Vec<TurnAction> = Vec::new();
        match self.pending.take() {
            None => {},
            Some(p) => {
                let elapsed: u64 = p.elapsed_ms.saturating_add(dt_ms);
                if elapsed < self.confirm_ms {
                    self.pending = Some(
                        Pending { kind: p.kind, word: p.word, elapsed_ms: elapsed },
                    );
                } else {
                    let text = trimmed(self.buffer.as_str());
                    self.capturing = false;
                    self.buffer = String::new();
                    match p.kind {
                        PendingKind::Submit => {
                            if !text.as_str().is_empty() {
                                out.push(TurnAction::SubmitText(text));
                            }
                        },
                        PendingKind::Cancel => {
                            out.push(TurnAction::Cancel);
                        },
                    }
                }
            },
        }
        assert(action_views(out@) =~= silence_actions(old(self)@, dt_ms));
        out
    }
}

/// A closed turn has gathered nothing and waits for nothing.
pub open spec fn turn_inv(v: TurnView) -> bool {
    !v.capturing ==> v.buffer.len() == 0 && v.pending is None
}

/// Whatever happens to a turn, a closed turn has gathered nothing and waits for nothing.
pub proof fn law_closed_turn_is_empty(v: TurnView, transcript: Seq<char>, dt_ms: u64)
    requires
        turn_inv(v),
    ensures
        turn_inv(turn_after(v, heard_in(v, transcript))),
        turn_inv(turn_resumed(v)),
        turn_inv(turn_silent(v, dt_ms)),
{
}

/// Nothing is gathered until the start word opens the turn.
pub proof fn law_idle_until_start_word(v: TurnView, transcript: Seq<char>)
    requires
        turn_inv(v),
        !v.capturing,
    ensures
        turn_after(v, heard_in(v, transcript)).capturing <==> trim(transcript).len() > 0
            && after_start(trim(trim(transcript)), v.start_word) is Some,
        !turn_after(v, heard_in(v, transcript)).capturing ==> turn_after(
            v,
            heard_in(v, transcript),
        ) == v,
{
}

/// Silence calls for an action only while a stop word waits, and then the turn is closed.
pub proof fn law_action_needs_a_stop_word(v: TurnView, dt_ms: u64)
    ensures
        silence_actions(v, dt_ms).len() > 0 ==> v.pending is Some && turn_silent(v, dt_ms)
            == closed_turn(v),
        silence_actions(v, dt_ms).len() <= 1,
{
}

/// A stop word that is followed by more talk is content: it is gathered where it stood,
/// and nothing is submitted or dropped.
pub proof fn law_talk_makes_stop_word_content(v: TurnView, kind: PendingKind, before: Seq<char>)
    requires
        v.capturing,
    ensures
        ({
            let word = match kind {
                PendingKind::Submit => v.submit_word,
                PendingKind::Cancel => v.cancel_word,
            };
            turn_resumed(turn_after(v, HeardView::Stop(kind, before))) == (TurnView {
                buffer: appended(appended(v.buffer, before), word),
                pending: None,
                ..v
            })
        }),
{
}

/// A turn that is cancelled submits nothing, whatever it has gathered.
pub proof fn law_cancel_drops_everything(v: TurnView, dt_ms: u64)
    requires
        v.pending is Some,
        v.pending->0.kind == PendingKind::Cancel,
        confirms(v, dt_ms),
    ensures
        silence_actions(v, dt_ms) == seq![ActionView::Cancel],
        turn_silent(v, dt_ms) == closed_turn(v),
{
}

/// A turn that is submitted hands on everything that it has gathered, trimmed, where
/// there is anything, and is closed.
pub proof fn law_submit_hands_on_everything(v: TurnView, dt_ms: u64)
    requires
        v.pending is Some,
        v.pending->0.kind == PendingKind::Submit,
        confirms(v, dt_ms),
    ensures
        silence_actions(v, dt_ms) == (if trim(v.buffer).len() > 0 {
            seq![ActionView::SubmitText(trim(v.buffer))]
        } else {
            Seq::empty()
        }),
        turn_silent(v, dt_ms) == closed_turn(v),
{
}

/// A turn after `n` times `dt_ms` of silence.
pub open spec fn silent_for(v: TurnView, dt_ms: u64, n: nat) -> TurnView
    decreases n,
{
    if n == 0 {
        v
    } else {
        turn_silent(silent_for(v, dt_ms, (n - 1) as nat), dt_ms)
    }
}

/// A stop word takes effect once the silence after it has lasted as long as it must, and
/// not before: until then the turn only waits.
pub proof fn law_stop_word_waits_for_silence(v: TurnView, p: PendingView, dt_ms: u64, n: nat)
    requires
        v.pending == Some(p),
        p.elapsed_ms == 0,
        n * dt_ms < v.confirm_ms,
    ensures
        silent_for(v, dt_ms, n) == (TurnView {
            pending: Some(PendingView { elapsed_ms: (n * dt_ms) as u64, ..p }),
            ..v
        }),
        confirms(silent_for(v, dt_ms, n), dt_ms) <==> (n + 1) * dt_ms >= v.confirm_ms,
    decreases n,
{
    assert((n + 1) * dt_ms == n * dt_ms + dt_ms) by (nonlinear_arith);
    assert(0 <= n * dt_ms) by (nonlinear_arith);
    if n == 0 {
        assert(n * dt_ms == 0) by (nonlinear_arith)
            requires
                n == 0,
        ;
    } else {
        let m = (n - 1) as nat;
        assert(n * dt_ms == m * dt_ms + dt_ms) by (nonlinear_arith)
            requires
                n == m + 1,
        ;
        law_stop_word_waits_for_silence(v, p, dt_ms, m);
    }
}

/// What a turn has gathered neither begins nor ends with white space, whatever happens to
/// it: it is submitted as it stands.
pub proof fn law_gathered_text_is_trimmed(
    v: TurnView,
    heard: HeardView,
    transcript: Seq<char>,
    dt_ms: u64,
)
    requires
        trim(v.buffer) == v.buffer,
    ensures
        trim(turn_after(v, heard).buffer) == turn_after(v, heard).buffer,
        trim(turn_after(v, heard_in(v, transcript)).buffer) == turn_after(
            v,
            heard_in(v, transcript),
        ).buffer,
        trim(turn_resumed(v).buffer) == turn_resumed(v).buffer,
        trim(turn_silent(v, dt_ms).buffer) == turn_silent(v, dt_ms).buffer,
        trim(closed_turn(v).buffer) == closed_turn(v).buffer,
        silence_actions(v, dt_ms).len() == 1 && v.pending->0.kind == PendingKind::Submit
            ==> silence_actions(v, dt_ms) == seq![ActionView::SubmitText(v.buffer)],
{
    lemma_heard_trimmed(v, heard);
    lemma_heard_trimmed(v, heard_in(v, transcript));
    if v.pending is Some {
        lemma_appended(v.buffer, v.pending->0.word);
    }
}

proof fn lemma_appended(buffer: Seq<char>, text: Seq<char>)
    requires
        trim(buffer) == buffer,
    ensures
        trim(appended(buffer, text)) == appended(buffer, text),
{
    let t = trim(text);
    lemma_trim(text);
    lemma_trim(buffer);
    if t.len() > 0 && buffer.len() > 0 {
        let all = buffer.push(' ') + t;
        assert(all[0] == buffer[0]);
        assert(all.last() == t.last());
    }
}

proof fn lemma_heard_trimmed(v: TurnView, heard: HeardView)
    requires
        trim(v.buffer) == v.buffer,
    ensures
        trim(turn_after(v, heard).buffer) == turn_after(v, heard).buffer,
{
    match heard {
        HeardView::Nothing => {},
        HeardView::Start(rest) => {
            lemma_appended(Seq::empty(), rest);
        },
        HeardView::Stop(_, before) => {
            lemma_appended(v.buffer, before);
        },
        HeardView::Text(text) => {
            lemma_appended(v.buffer, text);
        },
    }
}

// ── Laws of a whole turn ─────────────────────────────────────────────────────

/// What a turn has gathered is never lost while it is open: whatever is heard, what was
/// gathered stays as it is, and what is new follows it, trimmed and after one space.
pub proof fn law_gathering_loses_nothing(v: TurnView, text: Seq<char>, kind: PendingKind)
    requires
        v.capturing,
    ensures
        ({
            let said = turn_after(v, HeardView::Text(text));
            let stopped = turn_after(v, HeardView::Stop(kind, text));
            let silent = turn_after(v, HeardView::Nothing);
            let resumed = turn_resumed(stopped);
            &&& v.buffer.is_prefix_of(said.buffer)
            &&& v.buffer.is_prefix_of(stopped.buffer)
            &&& stopped.buffer.is_prefix_of(resumed.buffer)
            &&& silent.buffer == v.buffer
            &&& said.buffer == stopped.buffer
            &&& trim(text).len() == 0 ==> said.buffer == v.buffer
            &&& trim(text).len() > 0 && v.buffer.len() == 0 ==> said.buffer == trim(text)
            &&& trim(text).len() > 0 && v.buffer.len() > 0 ==> said.buffer == v.buffer + seq![' ']
                + trim(text)
            &&& said.capturing && stopped.capturing && silent.capturing && resumed.capturing
            &&& said.pending is None && silent.pending is None && resumed.pending is None
        }),
{
    assert(v.buffer.push(' ') + trim(text) =~= v.buffer + seq![' '] + trim(text));
}

/// Texts joined by single spaces.
pub open spec fn joined(pieces: Seq<Seq<char>>) -> Seq<char>
    decreases pieces.len(),
{
    if pieces.len() == 0 {
        Seq::empty()
    } else if pieces.len() == 1 {
        pieces[0]
    } else {
        joined(pieces.drop_last()) + seq![' '] + pieces.last()
    }
}

/// The texts of a list that are more than white space, trimmed, in order.
pub open spec fn spoken_pieces(list: Seq<Seq<char>>) -> Seq<Seq<char>>
    decreases list.len(),
{
    if list.len() == 0 {
        Seq::empty()
    } else if trim(list.last()).len() == 0 {
        spoken_pieces(list.drop_last())
    } else {
        spoken_pieces(list.drop_last()).push(trim(list.last()))
    }
}

/// A turn once several texts were heard, one after the other.
pub open spec fn turn_after_texts(v: TurnView, list: Seq<Seq<char>>) -> TurnView
    decreases list.len(),
{
    if list.len() == 0 {
        v
    } else {
        turn_after(turn_after_texts(v, list.drop_last()), HeardView::Text(list.last()))
    }
}

/// Joined texts are empty only where there are none.
proof fn lemma_joined(pieces: Seq<Seq<char>>)
    requires
        forall|i: int| 0 <= i < pieces.len() ==> (#[trigger] pieces[i]).len() > 0,
    ensures
        joined(pieces).len() == 0 <==> pieces.len() == 0,
    decreases pieces.len(),
{
    if pieces.len() > 1 {
        lemma_joined(pieces.drop_last());
    }
}

proof fn lemma_pieces_are_text(list: Seq<Seq<char>>)
    ensures
        forall|i: int|
            0 <= i < spoken_pieces(list).len() ==> (#[trigger] spoken_pieces(list)[i]).len() > 0,
    decreases list.len(),
{
    if list.len() > 0 {
        let front = spoken_pieces(list.drop_last());
        lemma_pieces_are_text(list.drop_last());
        assert forall|i: int| 0 <= i < spoken_pieces(list).len() implies (
        #[trigger] spoken_pieces(list)[i]).len() > 0 by {
            if i < front.len() {
                assert(spoken_pieces(list)[i] == front[i]);
            }
        }
    }
}

/// What gathering one more text makes of what was gathered before.
proof fn lemma_appended_is_joined(list: Seq<Seq<char>>, text: Seq<char>)
    ensures
        appended(joined(spoken_pieces(list)), text) == joined(spoken_pieces(list.push(text))),
{
    let old_pieces = spoken_pieces(list);
    assert(list.push(text).drop_last() =~= list);
    assert(list.push(text).last() == text);
    lemma_pieces_are_text(list);
    lemma_joined(old_pieces);
    if trim(text).len() > 0 {
        let more = old_pieces.push(trim(text));
        assert(more.drop_last() =~= old_pieces);
        assert(joined(old_pieces).push(' ') + trim(text) =~= joined(old_pieces) + seq![' '] + trim(
            text,
        ));
    }
}

proof fn lemma_texts_are_joined(v: TurnView, first: Seq<char>, list: Seq<Seq<char>>)
    requires
        v.buffer == joined(spoken_pieces(seq![first])),
        v.capturing,
        trim(v.buffer) == v.buffer,
    ensures
        turn_after_texts(v, list).buffer == joined(spoken_pieces(seq![first] + list)),
        turn_after_texts(v, list).capturing,
        list.len() > 0 ==> turn_after_texts(v, list).pending is None,
        turn_after_texts(v, list).submit_word == v.submit_word,
        turn_after_texts(v, list).cancel_word == v.cancel_word,
        turn_after_texts(v, list).start_word == v.start_word,
        turn_after_texts(v, list).confirm_ms == v.confirm_ms,
        trim(turn_after_texts(v, list).buffer) == turn_after_texts(v, list).buffer,
    decreases list.len(),
{
    if list.len() == 0 {
        assert(seq![first] + list =~= seq![first]);
    } else {
        let front = list.drop_last();
        lemma_texts_are_joined(v, first, front);
        lemma_appended_is_joined(seq![first] + front, list.last());
        assert((seq![first] + front).push(list.last()) =~= seq![first] + list);
        lemma_appended(turn_after_texts(v, front).buffer, list.last());
    }
}

/// A dictation is handed on whole: what follows the start word, what is heard after it
/// and what stands before the stop word, each trimmed and those left out that are blank,
/// are submitted in their order with one space between them, once the silence after the
/// stop word has lasted long enough. Where nothing was said, nothing is submitted. The
/// turn is closed then and holds nothing.
pub proof fn law_dictation_is_submitted_whole(
    v: TurnView,
    first: Seq<char>,
    list: Seq<Seq<char>>,
    last: Seq<char>,
    dt_ms: u64,
)
    requires
        dt_ms >= v.confirm_ms,
    ensures
        ({
            let gathered = turn_after_texts(turn_after(v, HeardView::Start(first)), list);
            let stopped = turn_after(gathered, HeardView::Stop(PendingKind::Submit, last));
            let pieces = spoken_pieces(seq![first] + list + seq![last]);
            let ended = turn_silent(stopped, dt_ms);
            &&& silence_actions(stopped, dt_ms) == (if pieces.len() > 0 {
                seq![ActionView::SubmitText(joined(pieces))]
            } else {
                Seq::empty()
            })
            &&& !ended.capturing && ended.buffer.len() == 0 && ended.pending is None
            &&& ended.start_word == v.start_word && ended.submit_word == v.submit_word
                && ended.cancel_word == v.cancel_word && ended.confirm_ms == v.confirm_ms
        }),
{
    let opened = turn_after(v, HeardView::Start(first));
    assert(seq![first] =~= Seq::<Seq<char>>::empty().push(first));
    lemma_appended_is_joined(Seq::empty(), first);
    assert(trim(Seq::<char>::empty()) =~= Seq::<char>::empty());
    lemma_appended(Seq::empty(), first);
    lemma_texts_are_joined(opened, first, list);
    let gathered = turn_after_texts(opened, list);
    lemma_appended_is_joined(seq![first] + list, last);
    assert((seq![first] + list).push(last) =~= seq![first] + list + seq![last]);
    lemma_appended(gathered.buffer, last);
    let pieces = spoken_pieces(seq![first] + list + seq![last]);
    lemma_pieces_are_text(seq![first] + list + seq![last]);
    lemma_joined(pieces);
    let stopped = turn_after(gathered, HeardView::Stop(PendingKind::Submit, last));
    assert(stopped.buffer == joined(pieces));
    assert(stopped.pending->0.elapsed_ms == 0);
}

/// A dictation that is cancelled submits nothing, whatever was said; the turn is closed
/// then and holds nothing.
pub proof fn law_cancelled_dictation_is_dropped(v: TurnView, last: Seq<char>, dt_ms: u64)
    requires
        dt_ms >= v.confirm_ms,
    ensures
        ({
            let stopped = turn_after(v, HeardView::Stop(PendingKind::Cancel, last));
            let ended = turn_silent(stopped, dt_ms);
            &&& silence_actions(stopped, dt_ms) == seq![ActionView::Cancel]
            &&& !ended.capturing && ended.buffer.len() == 0 && ended.pending is None
        }),
{
}

/// Less silence than a stop word needs does nothing but count; the silence adds up, and
/// talk takes it back.
pub proof fn law_silence_adds_up(v: TurnView, p: PendingView, a: u64, b: u64)
    requires
        v.pending == Some(p),
        p.elapsed_ms + a < v.confirm_ms,
        p.elapsed_ms + a + b <= u64::MAX,
    ensures
        silence_actions(v, a) == Seq::<ActionView>::empty(),
        turn_silent(v, a).capturing == v.capturing,
        turn_silent(v, a).buffer == v.buffer,
        turn_silent(v, a).pending == Some(PendingView { elapsed_ms: (p.elapsed_ms + a) as u64, ..p }),
        silence_actions(turn_silent(v, a), b) == silence_actions(v, (a + b) as u64),
        turn_silent(turn_silent(v, a), b) == turn_silent(v, (a + b) as u64),
        turn_resumed(turn_silent(v, a)) == turn_resumed(v),
        turn_resumed(v).pending is None,
{
}

/// Silence alone, without a stop word, changes nothing and calls for nothing.
pub proof fn law_silence_alone_does_nothing(v: TurnView, dt_ms: u64)
    requires
        v.pending is None,
    ensures
        silence_actions(v, dt_ms) == Seq::<ActionView>::empty(),
        turn_silent(v, dt_ms) == v,
        turn_resumed(v) == v,
{
}

/// What a closed turn hears is the start word or nothing; what an open turn hears is a
/// stop word, the one that submits before the one that cancels, or the text itself.
pub proof fn law_what_a_turn_hears(v: TurnView, transcript: Seq<char>)
    ensures
        trim(transcript).len() == 0 ==> heard_in(v, transcript) == HeardView::Nothing,
        trim(transcript).len() > 0 && !v.capturing ==> heard_in(v, transcript) == (match after_start(
            trim(transcript),
            v.start_word,
        ) {
            Some(rest) => HeardView::Start(rest),
            None => HeardView::Nothing,
        }),
        trim(transcript).len() > 0 && v.capturing && stops(trim(transcript), v.submit_word)
            ==> heard_in(v, transcript) == HeardView::Stop(
            PendingKind::Submit,
            before_stop(trim(transcript), v.submit_word),
        ),
        trim(transcript).len() > 0 && v.capturing && !stops(trim(transcript), v.submit_word)
            && stops(trim(transcript), v.cancel_word) ==> heard_in(v, transcript)
            == HeardView::Stop(PendingKind::Cancel, before_stop(trim(transcript), v.cancel_word)),
        trim(transcript).len() > 0 && v.capturing && !stops(trim(transcript), v.submit_word)
            && !stops(trim(transcript), v.cancel_word) ==> heard_in(v, transcript)
            == HeardView::Text(trim(transcript)),
{
    lemma_trim(transcript);
}

/// A voiced frame makes the user talk, and begins the count of silence anew; between
/// utterances silence changes nothing. The silence that ends an utterance stays the same.
pub proof fn law_voice_keeps_an_utterance_open(e: Endpointer, voiced: bool, frame_ms: u64)
    ensures
        endpoint_next(e, true, frame_ms) == (Endpointer {
            speaking: true,
            silence_ms: 0,
            ..e
        }),
        endpoint_event(e, true, frame_ms) == (if e.speaking {
            None
        } else {
            Some(EndpointEvent::SpeechOnset)
        }),
        !e.speaking ==> endpoint_event(e, false, frame_ms) is None && endpoint_next(
            e,
            false,
            frame_ms,
        ).speaking == false,
        e.speaking && e.silence_ms + frame_ms >= e.endpoint_silence_ms ==> endpoint_event(
            e,
            false,
            frame_ms,
        ) == Some(EndpointEvent::SegmentClosed) && !endpoint_next(e, false, frame_ms).speaking
            && endpoint_next(e, false, frame_ms).silence_ms == 0,
        endpoint_next(e, voiced, frame_ms).endpoint_silence_ms == e.endpoint_silence_ms,
{
}

// ── Laws of words ────────────────────────────────────────────────────────────

/// The words of a text are its runs without white space: each is one whole run, they do
/// not overlap and stand in order, and every character that is not white space belongs to
/// one of them.
pub proof fn law_words_are_whole_runs(s: Seq<char>, from: int)
    requires
        0 <= from <= s.len(),
        from == 0 || from == s.len() || is_space(s[from - 1]) || is_space(s[from]),
    ensures
        forall|i: int|
            0 <= i < words(s, from).len() ==> {
                let (a, b) = #[trigger] words(s, from)[i];
                &&& from <= a < b <= s.len()
                &&& forall|k: int| a <= k < b ==> !is_space(#[trigger] s[k])
                &&& a == 0 || is_space(s[a - 1])
                &&& b == s.len() || is_space(s[b])
            },
        forall|i: int, j: int|
            0 <= i < j < words(s, from).len() ==> (#[trigger] words(s, from)[i]).1 < (
            #[trigger] words(s, from)[j]).0,
        forall|k: int|
            from <= k < s.len() && !is_space(#[trigger] s[k]) ==> exists|i: int|
                0 <= i < words(s, from).len() && (#[trigger] words(s, from)[i]).0 <= k
                    && k < words(s, from)[i].1,
    decreases s.len() - from,
{
    if from < s.len() {
        let all = words(s, from);
        if is_space(s[from]) {
            let rest = words(s, from + 1);
            law_words_are_whole_runs(s, from + 1);
            assert forall|k: int| from <= k < s.len() && !is_space(#[trigger] s[k]) implies exists|
                i: int,
            |
                0 <= i < all.len() && (#[trigger] all[i]).0 <= k && k < all[i].1 by {
                assert(k >= from + 1);
            }
        } else {
            let end = run_end(s, from);
            let rest = words(s, end);
            lemma_run_end(s, from);
            lemma_run_is_bare(s, from);
            law_words_are_whole_runs(s, end);
            assert(all =~= seq![(from, end)] + rest);
            assert forall|i: int| 1 <= i < all.len() implies #[trigger] all[i] == rest[i - 1] by {}
            assert forall|i: int| 0 <= i < all.len() implies ({
                let (a, b) = #[trigger] all[i];
                &&& from <= a < b <= s.len()
                &&& forall|k: int| a <= k < b ==> !is_space(#[trigger] s[k])
                &&& a == 0 || is_space(s[a - 1])
                &&& b == s.len() || is_space(s[b])
            }) by {
                if i > 0 {
                    assert(all[i] == rest[i - 1]);
                }
            }
            assert forall|i: int, j: int| 0 <= i < j < all.len() implies (#[trigger] all[i]).1 < (
            #[trigger] all[j]).0 by {
                assert(all[j] == rest[j - 1]);
                if i > 0 {
                    assert(all[i] == rest[i - 1]);
                } else {
                    assert(end <= rest[j - 1].0);
                    assert(!is_space(s[rest[j - 1].0]));
                }
            }
            assert forall|k: int| from <= k < s.len() && !is_space(#[trigger] s[k]) implies exists|
                i: int,
            |
                0 <= i < all.len() && (#[trigger] all[i]).0 <= k && k < all[i].1 by {
                if k < end {
                    assert(all[0] == (from, end));
                } else {
                    let i = choose|i: int|
                        0 <= i < rest.len() && (#[trigger] rest[i]).0 <= k && k < rest[i].1;
                    assert(all[i + 1] == rest[i]);
                }
            }
        }
    }
}

proof fn lemma_run_is_bare(s: Seq<char>, i: int)
    requires
        0 <= i <= s.len(),
    ensures
        forall|k: int| i <= k < run_end(s, i) ==> !is_space(#[trigger] s[k]),
        run_end(s, i) == s.len() || is_space(s[run_end(s, i)]),
    decreases s.len() - i,
{
    if i < s.len() && !is_space(s[i]) {
        lemma_run_is_bare(s, i + 1);
        lemma_run_end(s, i + 1);
    } else {
        lemma_run_end(s, i);
    }
}

/// A word is compared in small letters and without what surrounds its letters and digits;
/// what stands between them stays.
pub proof fn law_punctuation_around_a_word_does_not_count(
    a: Seq<char>,
    t: Seq<char>,
    b: Seq<char>,
)
    requires
        forall|i: int| 0 <= i < a.len() ==> !is_alnum(#[trigger] a[i]),
        forall|i: int| 0 <= i < b.len() ==> !is_alnum(#[trigger] b[i]),
        t.len() > 0,
        is_alnum(t[0]),
        is_alnum(t.last()),
    ensures
        normal(a + t + b) == lowercase(t),
        normal(a) == lowercase(Seq::empty()),
{
    lemma_bare_start(a, t + b);
    assert(a + t + b =~= a + (t + b));
    lemma_bare_end(t, b);
    lemma_bare_start(a, Seq::empty());
    assert(a + Seq::<char>::empty() =~= a);
}

proof fn lemma_bare_start(a: Seq<char>, t: Seq<char>)
    requires
        forall|i: int| 0 <= i < a.len() ==> !is_alnum(#[trigger] a[i]),
        t.len() == 0 || is_alnum(t[0]),
    ensures
        bare_start(a + t) == t,
    decreases a.len(),
{
    if a.len() == 0 {
        assert(a + t =~= t);
    } else {
        assert((a + t).drop_first() =~= a.drop_first() + t);
        assert((a + t)[0] == a[0]);
        assert forall|i: int| 0 <= i < a.drop_first().len() implies !is_alnum(
            #[trigger] a.drop_first()[i],
        ) by {
            assert(a.drop_first()[i] == a[i + 1]);
        }
        lemma_bare_start(a.drop_first(), t);
    }
}

proof fn lemma_bare_end(t: Seq<char>, b: Seq<char>)
    requires
        forall|i: int| 0 <= i < b.len() ==> !is_alnum(#[trigger] b[i]),
        t.len() == 0 || is_alnum(t.last()),
    ensures
        bare_end(t + b) == t,
    decreases b.len(),
{
    if b.len() == 0 {
        assert(t + b =~= t);
    } else {
        assert((t + b).drop_last() =~= t + b.drop_last());
        assert((t + b).last() == b.last());
        lemma_bare_end(t, b.drop_last());
    }
}

/// One run is one word.
proof fn lemma_one_word(w: Seq<char>, i: int)
    requires
        0 <= i <= w.len(),
        forall|k: int| 0 <= k < w.len() ==> !is_space(#[trigger] w[k]),
    ensures
        run_end(w, i) == w.len(),
        i < w.len() ==> words(w, i) == seq![(i, w.len() as int)],
        i == w.len() ==> words(w, i).len() == 0,
    decreases w.len() - i,
{
    if i < w.len() {
        lemma_one_word(w, i + 1);
        lemma_one_word(w, w.len() as int);
        assert(words(w, i) =~= seq![(i, w.len() as int)]);
    }
}

/// The words of one run, as they are compared.
proof fn lemma_one_normal_word(w: Seq<char>)
    requires
        w.len() > 0,
        forall|k: int| 0 <= k < w.len() ==> !is_space(#[trigger] w[k]),
    ensures
        normal_words(w) == seq![normal(w)],
        normal(w).len() > 0 ==> phrase_words(w) == seq![normal(w)],
{
    lemma_one_word(w, 0);
    assert(w.subrange(0, w.len() as int) =~= w);
    assert(normal_words(w) =~= seq![normal(w)]);
    let keep = |t: Seq<char>| is_word(t);
    let list = normal_words(w);
    if normal(w).len() > 0 {
        reveal(Seq::filter);
        assert(list.drop_last() =~= Seq::empty());
        assert(list.drop_last().filter(keep) =~= Seq::empty());
        assert(list.filter(keep) =~= seq![normal(w)]);
    }
}

/// A stop word is found at the end of what is said, as it is spoken: a word that compares
/// like it counts, whatever its case and the punctuation around it. What is said before
/// it is what stands before it.
pub proof fn law_stop_word_is_found_at_the_end(p: Seq<char>, w: Seq<char>, word: Seq<char>)
    requires
        w.len() > 0,
        word.len() > 0,
        forall|k: int| 0 <= k < w.len() ==> !is_space(#[trigger] w[k]),
        forall|k: int| 0 <= k < word.len() ==> !is_space(#[trigger] word[k]),
        normal(word).len() > 0,
    ensures
        stops(w, word) <==> normal(w) == normal(word),
        normal(w) == normal(word) ==> before_stop(w, word).len() == 0,
        normal(w) == normal(word) ==> stops(trim(p.push(' ') + w), word),
        normal(w) == normal(word) ==> before_stop(trim(p.push(' ') + w), word) == trim(p),
{
    lemma_one_normal_word(w);
    lemma_one_normal_word(word);
    lemma_one_word(w, 0);
    let a = normal_words(w);
    let b = phrase_words(word);
    assert(a.skip(0) =~= a);
    if normal(w) == normal(word) {
        assert(a =~= b);
        assert(w.take(0) =~= Seq::<char>::empty());
        assert(before_stop(w, word) =~= Seq::<char>::empty());
        assert(trim_start(w) == w);
        assert(trim_end(w) == w);
        law_talk_before_a_stop_word_is_content(p, w, word);
        assert(p.push(' ') + Seq::<char>::empty() =~= p + seq![' ']);
        lemma_trim(p);
        let (x, y) = crate::text::lemma_trim_parts(p);
        assert(p.push(' ') =~= x + trim(p) + y.push(' '));
        crate::text::law_trim_gives_back_the_text(x, trim(p), y.push(' '));
    } else {
        if a == b {
            assert(a[0] == b[0]);
        }
    }
}

/// A stop word that is not the last word does not stop.
pub proof fn law_stop_word_inside_a_sentence_is_content(t: Seq<char>, word: Seq<char>)
    requires
        word.len() > 0,
        forall|k: int| 0 <= k < word.len() ==> !is_space(#[trigger] word[k]),
        normal(word).len() > 0,
        normal_words(t).len() == 0 || normal_words(t).last() != normal(word),
    ensures
        !stops(t, word),
{
    lemma_one_normal_word(word);
    let a = normal_words(t);
    let b = phrase_words(word);
    if stops(t, word) {
        assert(a.skip(a.len() - 1)[0] == a.last());
        assert(b[0] == normal(word));
    }
}

/// The start word is found though it is garbled a little: a word counts as it if at most
/// two characters must be put in, taken out or replaced, and no word counts that is
/// further off. The first such word is the one that counts.
pub proof fn law_start_word_may_be_garbled(got: Seq<char>, want: Seq<char>, list: Seq<Seq<char>>)
    ensures
        sounds_like(got, want) <==> got.len() > 0 && edit_distance(got, want) <= 2,
        0 <= start_place(list, want) <= list.len(),
        start_place(list, want) < list.len() ==> sounds_like(list[start_place(list, want)], want),
        forall|k: int|
            0 <= k < start_place(list, want) && k < list.len() ==> !sounds_like(
                #[trigger] list[k],
                want,
            ),
    decreases list.len(),
{
    if list.len() > 0 && !sounds_like(list[0], want) {
        let rest = list.drop_first();
        law_start_word_may_be_garbled(got, want, rest);
        assert forall|k: int| 0 <= k < start_place(list, want) && k < list.len() implies !sounds_like(
            #[trigger] list[k],
            want,
        ) by {
            if k > 0 {
                assert(rest[k - 1] == list[k]);
            }
        }
    }
}

/// What follows the start word is what the turn begins with: in a transcript of the start
/// word and more, everything after that word, trimmed; after the start word alone,
/// nothing.
pub proof fn law_what_follows_the_start_word_is_kept(w: Seq<char>, rest: Seq<char>)
    requires
        w.len() > 0,
        forall|k: int| 0 <= k < w.len() ==> !is_space(#[trigger] w[k]),
        normal(w).len() > 0,
    ensures
        after_start(w, w) == Some(Seq::<char>::empty()),
        trim(rest).len() > 0 ==> after_start(w.push(' ') + rest, w) == Some(trim(rest)),
{
    lemma_one_normal_word(w);
    lemma_one_word(w, 0);
    law_distance_is_zero_of_equals(normal(w), normal(w));
    if trim(rest).len() > 0 {
        let gap = w.push(' ');
        let t = gap + rest;
        lemma_words_joined(gap, rest, 0);
        lemma_word_before_space(w);
        let first = words(rest, 0)[0];
        law_words_are_whole_runs(rest, 0);
        lemma_trim(rest);
        lemma_trim_start(rest);
        lemma_trim_end(trim_start(rest));
        let d = rest.len() - trim_start(rest).len();
        assert(trim_start(rest).len() > 0);
        assert(rest[d] == trim_start(rest)[0]);
        assert(words(rest, 0).len() > 0);
        lemma_first_word(rest);
        assert(words(t, 0)[1] == (first.0 + gap.len(), first.1 + gap.len()));
        assert(t.skip(words(t, 0)[1].0) =~= rest.skip(first.0));
        assert(rest.skip(first.0) == trim_start(rest));
        assert(trim_start(trim_start(rest)) == trim_start(rest));
        assert(t.subrange(0, w.len() as int) =~= w);
        assert(normal_words(t)[0] == normal(w));
    }
}

proof fn lemma_word_before_space(w: Seq<char>)
    requires
        w.len() > 0,
        forall|k: int| 0 <= k < w.len() ==> !is_space(#[trigger] w[k]),
    ensures
        words(w.push(' '), 0) == seq![(0int, w.len() as int)],
{
    let g = w.push(' ');
    lemma_run_to_space(w, 0);
    assert(g[0] == w[0]);
    assert(words(g, w.len() as int + 1).len() == 0);
    assert(words(g, w.len() as int) == words(g, w.len() as int + 1));
    assert(words(g, 0) =~= seq![(0int, w.len() as int)]);
}

proof fn lemma_run_to_space(w: Seq<char>, i: int)
    requires
        0 <= i <= w.len(),
        forall|k: int| 0 <= k < w.len() ==> !is_space(#[trigger] w[k]),
    ensures
        run_end(w.push(' '), i) == w.len(),
    decreases w.len() - i,
{
    if i < w.len() {
        assert(w.push(' ')[i] == w[i]);
        lemma_run_to_space(w, i + 1);
    }
}

/// The first word begins where the white space at the beginning ends.
proof fn lemma_first_word(s: Seq<char>)
    requires
        trim_start(s).len() > 0,
    ensures
        words(s, 0).len() > 0,
        words(s, 0)[0].0 == s.len() - trim_start(s).len(),
        s.skip(words(s, 0)[0].0) == trim_start(s),
{
    assert(s.skip(0) =~= s);
    lemma_first_word_from(s, 0);
    lemma_trim_start(s);
}

proof fn lemma_first_word_from(s: Seq<char>, i: int)
    requires
        0 <= i <= s.len(),
        trim_start(s.skip(i)).len() > 0,
    ensures
        words(s, i).len() > 0,
        words(s, i)[0].0 == s.len() - trim_start(s.skip(i)).len(),
    decreases s.len() - i,
{
    if i < s.len() {
        assert(s.skip(i)[0] == s[i]);
        if is_space(s[i]) {
            assert(s.skip(i).drop_first() =~= s.skip(i + 1));
            lemma_first_word_from(s, i + 1);
        }
    }
}

// ── Laws of the edit distance ────────────────────────────────────────────────

/// Whether one text becomes another by one character that is put in, taken out or
/// replaced.
pub open spec fn one_edit(a: Seq<char>, b: Seq<char>) -> bool {
    ||| exists|i: int, c: char| 0 <= i <= a.len() && b == #[trigger] a.insert(i, c)
    ||| exists|i: int| 0 <= i < a.len() && b == #[trigger] a.remove(i)
    ||| exists|i: int, c: char| 0 <= i < a.len() && b == #[trigger] a.update(i, c)
}

proof fn lemma_insert_distance(a: Seq<char>, i: int, c: char)
    requires
        0 <= i <= a.len(),
    ensures
        edit_distance(a, a.insert(i, c)) <= 1,
        edit_distance(a.insert(i, c), a) <= 1,
    decreases a.len(),
{
    let b = a.insert(i, c);
    law_distance_is_symmetric(a, b);
    if i == a.len() {
        assert(b.drop_last() =~= a);
        law_distance_is_zero_of_equals(a, a);
        if a.len() > 0 {
            assert(edit_distance(a, b) <= edit_distance(a, b.drop_last()) + 1);
        }
    } else {
        assert(b.last() == a.last());
        assert(b.drop_last() =~= a.drop_last().insert(i, c));
        lemma_insert_distance(a.drop_last(), i, c);
    }
}

proof fn lemma_update_distance(a: Seq<char>, i: int, c: char)
    requires
        0 <= i < a.len(),
    ensures
        edit_distance(a, a.update(i, c)) <= 1,
    decreases a.len(),
{
    let b = a.update(i, c);
    if i == a.len() - 1 {
        assert(b.drop_last() =~= a.drop_last());
        law_distance_is_zero_of_equals(a.drop_last(), a.drop_last());
    } else {
        assert(b.last() == a.last());
        assert(b.drop_last() =~= a.drop_last().update(i, c));
        lemma_update_distance(a.drop_last(), i, c);
    }
}

/// One edit is a distance of one at most; and as long as two texts differ, some edit
/// brings them closer. So the distance is the least number of edits between them.
pub proof fn law_distance_counts_edits(a: Seq<char>, b: Seq<char>)
    ensures
        one_edit(a, b) ==> edit_distance(a, b) <= 1,
        edit_distance(a, b) > 0 ==> exists|c: Seq<char>|
            #[trigger] one_edit(a, c) && edit_distance(c, b) + 1 == edit_distance(a, b),
{
    if one_edit(a, b) {
        if exists|i: int, c: char| 0 <= i <= a.len() && b == #[trigger] a.insert(i, c) {
            let (i, c) = choose|i: int, c: char| 0 <= i <= a.len() && b == #[trigger] a.insert(i, c);
            lemma_insert_distance(a, i, c);
        } else if exists|i: int| 0 <= i < a.len() && b == #[trigger] a.remove(i) {
            let i = choose|i: int| 0 <= i < a.len() && b == #[trigger] a.remove(i);
            assert(a =~= b.insert(i, a[i]));
            lemma_insert_distance(b, i, a[i]);
        } else {
            let (i, c) = choose|i: int, c: char| 0 <= i < a.len() && b == #[trigger] a.update(i, c);
            lemma_update_distance(a, i, c);
        }
    }
    if edit_distance(a, b) > 0 {
        let c = lemma_edit_brings_closer(a, b);
        assert(one_edit(a, c));
        law_distance_takes_no_detour(a, c, b);
        if exists|i: int, x: char| 0 <= i <= a.len() && c == #[trigger] a.insert(i, x) {
            let (i, x) = choose|i: int, x: char| 0 <= i <= a.len() && c == #[trigger] a.insert(i, x);
            lemma_insert_distance(a, i, x);
        } else if exists|i: int| 0 <= i < a.len() && c == #[trigger] a.remove(i) {
            let i = choose|i: int| 0 <= i < a.len() && c == #[trigger] a.remove(i);
            assert(a =~= c.insert(i, a[i]));
            lemma_insert_distance(c, i, a[i]);
        } else {
            let (i, x) = choose|i: int, x: char| 0 <= i < a.len() && c == #[trigger] a.update(i, x);
            lemma_update_distance(a, i, x);
        }
    }
}

proof fn lemma_edit_brings_closer(a: Seq<char>, b: Seq<char>) -> (c: Seq<char>)
    requires
        edit_distance(a, b) > 0,
    ensures
        one_edit(a, c),
        edit_distance(c, b) < edit_distance(a, b),
    decreases a.len() + b.len(),
{
    if a.len() == 0 {
        let c = a.push(b.last());
        assert(c =~= a.insert(0, b.last()));
        assert(c.drop_last() =~= a);
        assert(edit_distance(c.drop_last(), b.drop_last()) == b.len() - 1);
        c
    } else if b.len() == 0 {
        let c = a.drop_last();
        assert(c =~= a.remove(a.len() - 1));
        c
    } else {
        let (x, y) = (a.drop_last(), b.drop_last());
        if edit_distance(x, b) + 1 == edit_distance(a, b) {
            assert(x =~= a.remove(a.len() - 1));
            x
        } else if edit_distance(a, y) + 1 == edit_distance(a, b) {
            let c = a.push(b.last());
            assert(c =~= a.insert(a.len() as int, b.last()));
            assert(c.drop_last() =~= a);
            c
        } else if a.last() == b.last() {
            let d = lemma_edit_brings_closer(x, y);
            let c = d.push(a.last());
            assert(c.drop_last() =~= d);
            if exists|i: int, k: char| 0 <= i <= x.len() && d == #[trigger] x.insert(i, k) {
                let (i, k) = choose|i: int, k: char|
                    0 <= i <= x.len() && d == #[trigger] x.insert(i, k);
                assert(c =~= a.insert(i, k));
            } else if exists|i: int| 0 <= i < x.len() && d == #[trigger] x.remove(i) {
                let i = choose|i: int| 0 <= i < x.len() && d == #[trigger] x.remove(i);
                assert(c =~= a.remove(i));
            } else {
                let (i, k) = choose|i: int, k: char|
                    0 <= i < x.len() && d == #[trigger] x.update(i, k);
                assert(c =~= a.update(i, k));
            }
            c
        } else {
            let c = a.update(a.len() - 1, b.last());
            assert(c.drop_last() =~= x);
            c
        }
    }
}

} // verus!
