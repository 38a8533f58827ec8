//! Delta coalescing: bounds how often a fast token stream is handed on.
//!
//! Each (session, item) has a buffer that is flushed on a newline, on age, or when
//! the item completes. A buffer's sequence number survives its flushes and counts
//! them; it is the monotone index of the deltas handed on.

use crate::assoc::{AssocMap, MapKey};
use crate::text::{has_char, same_text};
use crate::seqs::{filter_out, lemma_filter_none, lemma_filter_step};
use vstd::prelude::*;

verus! {

/// What a batch of streamed narration carries.
#[derive(Debug, PartialEq, Eq)]
pub enum BatchPayload {
    /// New text, and which flush of its item it is.
    Delta { index: Option<u64>, text: String },
    /// The whole text of the item.
    Cumulative { text: String },
}

/// One batch of streamed narration.
#[derive(Debug, PartialEq, Eq)]
pub struct StreamBatch {
    /// The item the text belongs to.
    pub key: String,
    pub payload: BatchPayload,
    /// Whether the item is complete.
    pub is_final: bool,
}

/// A [`BatchPayload`] by its characters.
pub enum PayloadView {
    Delta { index: Option<u64>, text: Seq<char> },
    Cumulative { text: Seq<char> },
}

/// A [`StreamBatch`] by its characters.
pub struct BatchView {
    pub key: Seq<char>,
    pub payload: PayloadView,
    pub is_final: bool,
}

impl View for BatchPayload {
    type V = PayloadView;

    open spec fn view(&self) -> PayloadView {
        match *self {
            BatchPayload::Delta { index, text } => PayloadView::Delta { index, text: text@ },
            BatchPayload::Cumulative { text } => PayloadView::Cumulative { text: text@ },
        }
    }
}

impl View for StreamBatch {
    type V = BatchView;

    open spec fn view(&self) -> BatchView {
        BatchView { key: self.key@, payload: self.payload@, is_final: self.is_final }
    }
}

/// A session's batch, by its characters.
pub open spec fn batch_view(b: (String, StreamBatch)) -> (Seq<char>, BatchView) {
    (b.0@, b.1@)
}

/// A list of sessions' batches, by their characters.
pub open spec fn batch_views(v: Seq<(String, StreamBatch)>) -> Seq<(Seq<char>, BatchView)> {
    Seq::new(v.len(), |i: int| batch_view(v[i]))
}

/// The key of a buffer: a session and one of its items.
pub struct ItemKey {
    pub session: String,
    pub item: String,
}

impl MapKey for ItemKey {
    type Key = (Seq<char>, Seq<char>);

    open spec fn key(&self) -> (Seq<char>, Seq<char>) {
        (self.session@, self.item@)
    }

    fn same_key(&self, other: &Self) -> (r: bool) {
        self.session == other.session && self.item == other.item
    }

    fn copy_key(&self) -> (r: Self) {
        ItemKey { session: self.session.as_str().to_owned(), item: self.item.as_str().to_owned() }
    }
}

/// The text of one item that has not been handed on yet.
pub struct ItemBuf {
    pending: String,
    seq: u64,
    last_batch: u64,
}

/// An [`ItemBuf`] by its characters.
pub struct BufView {
    /// Text not handed on yet.
    pub pending: Seq<char>,
    /// How many batches of the item were handed on.
    pub seq: u64,
    /// When the last of them was (or when the buffer was opened), in milliseconds.
    pub last_batch: u64,
}

impl View for ItemBuf {
    type V = BufView;

    closed spec fn view(&self) -> BufView {
        BufView { pending: self.pending@, seq: self.seq, last_batch: self.last_batch }
    }
}

/// The buffers of all items that are being streamed.
pub struct Coalescer {
    bufs: AssocMap<ItemKey, ItemBuf>,
}

/// A buffer that was just flushed.
pub open spec fn flushed(b: BufView, now: u64) -> BufView {
    BufView { pending: Seq::empty(), seq: b.seq.saturating_add(1), last_batch: now }
}

/// The batch that hands on a buffer's text.
pub open spec fn delta_batch(item: Seq<char>, seq: u64, text: Seq<char>) -> BatchView {
    BatchView {
        key: item,
        payload: PayloadView::Delta { index: Some(seq), text },
        is_final: false,
    }
}

/// A fresh buffer.
pub open spec fn fresh_buf(now: u64) -> BufView {
    BufView { pending: Seq::empty(), seq: 0, last_batch: now }
}

/// What a buffer hands on when `delta` is appended: all its text, once that holds a
/// newline.
pub open spec fn ready(b: BufView, delta: Seq<char>) -> Option<Seq<char>> {
    if (b.pending + delta).contains('\n') {
        Some(b.pending + delta)
    } else {
        None
    }
}

/// A buffer after `delta` was appended.
pub open spec fn appended(b: BufView, delta: Seq<char>, now: u64) -> BufView {
    if ready(b, delta) is Some {
        flushed(b, now)
    } else {
        BufView { pending: b.pending + delta, ..b }
    }
}

/// Whether a sweep at `now` takes a buffer: it holds text and, in a sweep of one
/// session, belongs to it; in any other sweep, is at least `max_age` old.
pub open spec fn due(
    key: (Seq<char>, Seq<char>),
    b: BufView,
    now: u64,
    max_age: u64,
    only: Option<Seq<char>>,
) -> bool {
    b.pending.len() > 0 && match only {
        Some(s) => key.0 == s,
        None => now.saturating_sub(b.last_batch) >= max_age,
    }
}

impl Coalescer {
    /// No item has two buffers.
    pub closed spec fn wf(&self) -> bool {
        self.bufs.wf()
    }

    /// The buffer of each item.
    pub closed spec fn bufs(&self) -> Map<(Seq<char>, Seq<char>), BufView> {
        self.bufs@.map_values(|b: ItemBuf| b@)
    }

    /// The items with a buffer, in the order in which they were opened.
    pub closed spec fn order(&self) -> Seq<(Seq<char>, Seq<char>)> {
        self.bufs.keys()
    }

    /// The order lists each item with a buffer once.
    pub proof fn lemma_order(&self)
        requires
            self.wf(),
        ensures
            self.order().no_duplicates(),
            forall|k: (Seq<char>, Seq<char>)| #[trigger]
                self.bufs().contains_key(k) <==> self.order().contains(k),
    {
        self.bufs.lemma_list();
    }

    /// No buffers.
    pub fn new() -> (r: Self)
        ensures
            r.wf(),
            r.bufs() == Map::<(Seq<char>, Seq<char>), BufView>::empty(),
            r.order().len() == 0,
    {
        let r = Coalescer { bufs: AssocMap::new() };
        assert(r.bufs() =~= Map::empty());
        r
    }

    /// Whether there is no buffer at all.
    pub fn is_empty(&self) -> (r: bool)
        requires
            self.wf(),
        ensures
            r == (self.bufs() == Map::<(Seq<char>, Seq<char>), BufView>::empty()),
            r == (self.order().len() == 0),
    {
        proof {
            self.bufs.lemma_list();
            if self.bufs.list().len() > 0 {
                assert(self.bufs().contains_key(self.bufs.list()[0].0.key()));
            } else {
                assert(self.bufs() =~= Map::empty());
            }
        }
        self.bufs.len() == 0
    }

    /// Appends a delta. Where the buffer then holds a newline, its whole text is
    /// handed on at once.
    pub fn on_delta(&mut self, session: &str, item: &str, delta: &str, now: u64) -> (r: Option<
        (String, StreamBatch),
    >)
        requires
            old(self).wf(),
        ensures
            final(self).wf(),
            ({
                let k = (session@, item@);
                let b = if old(self).bufs().contains_key(k) {
                    old(self).bufs()[k]
                } else {
                    fresh_buf(now)
                };
                &&& final(self).bufs() == old(self).bufs().insert(k, appended(b, delta@, now))
                &&& match ready(b, delta@) {
                    Some(text) => r is Some && batch_view(r->0) == (
                        session@,
                        delta_batch(item@, b.seq, text),
                    ),
                    None => r is None,
                }
            }),
            final(self).order() == (if old(self).bufs().contains_key((session@, item@)) {
                old(self).order()
            } else {
                old(self).order().push((session@, item@))
            }),
    {
        let key = ItemKey { session: session.to_owned(), item: item.to_owned() };
        let (mut text, seq, last_batch) = match self.bufs.get(&key) {
            Some(b) => (b.pending.as_str().to_owned(), b.seq, b.last_batch),
            None => (String::new(), 0, now),
        };
        text.append(delta);
        if has_char(text.as_str(), '\n') {
            let buf = ItemBuf {
                pending: String::new(),
                seq: seq.saturating_add(1),
                last_batch: now,
            };
            let ghost bv = buf@;
            self.bufs.insert(key, buf);
            proof {
                assert(self.bufs() =~= old(self).bufs().insert((session@, item@), bv));
                assert(bv.pending =~= Seq::<char>::empty());
            }
            Some(
                (
                    session.to_owned(),
                    StreamBatch {
                        key: item.to_owned(),
                        payload: BatchPayload::Delta { index: Some(seq), text },
                        is_final: false,
                    },
                ),
            )
        } else {
            let buf = ItemBuf { pending: text, seq, last_batch };
            let ghost bv = buf@;
            self.bufs.insert(key, buf);
            assert(self.bufs() =~= old(self).bufs().insert((session@, item@), bv));
            None
        }
    }

    /// The item is complete: its buffer is dropped, and the authoritative text is
    /// handed on as one final cumulative batch.
    pub fn on_completed(&mut self, session: &str, item: &str, final_text: &str) -> (r: (
        String,
        StreamBatch,
    ))
        requires
            old(self).wf(),
        ensures
            final(self).wf(),
            final(self).bufs() == old(self).bufs().remove((session@, item@)),
            final(self).order() == filter_out(old(self).order(), (session@, item@)),
            batch_view(r) == (
                session@,
                (BatchView {
                    key: item@,
                    payload: (PayloadView::Cumulative { text: final_text@ }),
                    is_final: true,
                }),
            ),
    {
        let key = ItemKey { session: session.to_owned(), item: item.to_owned() };
        let _ = self.bufs.remove(&key);
        assert(self.bufs() =~= old(self).bufs().remove((session@, item@)));
        (
            session.to_owned(),
            StreamBatch {
                key: item.to_owned(),
                payload: BatchPayload::Cumulative { text: final_text.to_owned() },
                is_final: true,
            },
        )
    }

    /// Hands on the text of every buffer that is due, oldest item first: those at
    /// least `max_age` milliseconds old or, with `only_session`, all of that session.
    pub fn flush_aged(&mut self, now: u64, max_age: u64, only_session: Option<&str>) -> (r: Vec<
        (String, StreamBatch),
    >)
        requires
            old(self).wf(),
        ensures
            final(self).wf(),
            final(self).order() == old(self).order(),
            final(self).bufs() == swept(
                old(self).bufs(),
                now,
                max_age,
                crate::text::str_opt(only_session),
            ),
            batch_views(r@) == swept_batches(
                old(self).order(),
                old(self).bufs(),
                now,
                max_age,
                crate::text::str_opt(only_session),
            ),
    {
        let ghost only = crate::text::str_opt(only_session);
        let ghost start = self.bufs();
        let ghost order = self.order();
        let mut out: Vec<(String, StreamBatch)> = Vec::new();
        let mut i: usize = 0;
        proof {
            self.bufs.lemma_list();
            assert(order.take(0) =~= Seq::empty());
            assert(swept_batches(order.take(0), start, now, max_age, only) =~= Seq::empty());
            assert(self.bufs() =~= swept_first(start, order, 0, now, max_age, only));
        }
        while i < self.bufs.len()
            invariant
                i <= order.len(),
                order == old(self).order(),
                start == old(self).bufs(),
                self.bufs.wf(),
                self.bufs.keys() == order,
                order.no_duplicates(),
                forall|k: (Seq<char>, Seq<char>)| #[trigger]
                    start.contains_key(k) <==> order.contains(k),
                only == crate::text::str_opt(only_session),
                self.bufs() == swept_first(start, order, i as int, now, max_age, only),
                batch_views(out@) == swept_batches(
                    order.take(i as int),
                    start,
                    now,
                    max_age,
                    only,
                ),
            decreases order.len() - i,
        {
            proof {
                self.bufs.lemma_list();
            }
            let (key, buf) = self.bufs.entry(i);
            let ghost k = order[i as int];
            proof {
                assert(self.bufs.keys()[i as int] == k);
                assert(self.bufs@.contains_key(k));
                assert(self.bufs()[k] == buf@);
                assert(start.contains_key(k));
                assert forall|j: int| 0 <= j < i implies order[j] != k by {}
                assert(buf@ == start[k]);
            }
            let take = !buf.pending.as_str().is_empty() && match only_session {
                Some(s) => same_text(key.session.as_str(), s),
                None => now.saturating_sub(buf.last_batch) >= max_age,
            };
            assert(take == due(k, start[k], now, max_age, only));
            proof {
                let n = i as int;
                assert(order.take(n + 1).drop_last() =~= order.take(n));
                assert(order.take(n + 1).last() == k);
            }
            if take {
                let seq = buf.seq;
                let text = buf.pending.as_str().to_owned();
                let session = key.session.as_str().to_owned();
                let item = key.item.as_str().to_owned();
                let next = ItemBuf {
                    pending: String::new(),
                    seq: seq.saturating_add(1),
                    last_batch: now,
                };
                let ghost nv = next@;
                let ghost before = self.bufs();
                self.bufs.set_value(i, next);
                proof {
                    assert(nv.pending =~= Seq::<char>::empty());
                    assert(self.bufs() =~= before.insert(k, nv));
                }
                let ghost done = batch_views(out@);
                out.push(
                    (
                        session,
                        StreamBatch {
                            key: item,
                            payload: BatchPayload::Delta { index: Some(seq), text },
                            is_final: false,
                        },
                    ),
                );
                assert(batch_views(out@) =~= done.push(batch_view(out@.last())));
            }
            proof {
                assert(self.bufs() =~= swept_first(start, order, i + 1, now, max_age, only));
            }
            i += 1;
        }
        proof {
            assert(order.take(i as int) =~= order);
            assert(self.bufs() =~= swept(start, now, max_age, only)) by {
                assert forall|k: (Seq<char>, Seq<char>)| #[trigger]
                    start.contains_key(k) implies order.take(i as int).contains(k) by {
                    assert(order.contains(k));
                }
            }
        }
        out
    }

    /// Drops every buffer of `session`, handing nothing on.
    pub fn drop_session(&mut self, session: &str)
        requires
            old(self).wf(),
        ensures
            final(self).wf(),
            final(self).bufs() == without_session(old(self).bufs(), session@),
            final(self).order() == items_without(old(self).order(), session@),
    {
        let mut i: usize = 0;
        let ghost start = self.bufs();
        let ghost order = self.order();
        let ghost other = |k: (Seq<char>, Seq<char>)| k.0 != session@;
        let ghost mut n: int = 0;
        proof {
            self.bufs.lemma_list();
            lemma_filter_none(order, other);
            assert(self.bufs.keys() =~= order.take(0).filter(other) + order.skip(0));
        }
        while i < self.bufs.len()
            invariant
                i <= self.bufs.keys().len(),
                0 <= n <= order.len(),
                self.bufs.wf(),
                start == old(self).bufs(),
                order == old(self).order(),
                other == (|k: (Seq<char>, Seq<char>)| k.0 != session@),
                i == order.take(n).filter(other).len(),
                self.bufs.keys() == order.take(n).filter(other) + order.skip(n),
                forall|j: int| 0 <= j < i ==> (#[trigger] self.bufs.keys()[j]).0 != session@,
                forall|k: (Seq<char>, Seq<char>)| #[trigger]
                    self.bufs().contains_key(k) ==> start.contains_key(k) && start[k]
                        == self.bufs()[k],
                forall|k: (Seq<char>, Seq<char>)| #[trigger]
                    start.contains_key(k) && k.0 != session@ ==> self.bufs().contains_key(k),
            decreases self.bufs.keys().len() - i,
        {
            let (key, _) = self.bufs.entry(i);
            proof {
                let kept = order.take(n).filter(other);
                assert(n < order.len());
                assert(self.bufs.keys()[i as int] == order[n]);
                lemma_filter_step(order, n, other);
                assert(order.skip(n) =~= seq![order[n]] + order.skip(n + 1));
                assert((kept + order.skip(n)).remove(i as int) =~= kept + order.skip(n + 1));
                assert(kept.push(order[n]) + order.skip(n + 1) =~= kept + order.skip(n));
            }
            if same_text(key.session.as_str(), session) {
                let ghost before = self.bufs();
                let ghost keys = self.bufs.keys();
                let (gone, _) = self.bufs.remove_at(i);
                proof {
                    assert(self.bufs() =~= before.remove(gone.key()));
                    assert forall|j: int| 0 <= j < i implies (#[trigger] self.bufs.keys()[j]).0
                        != session@ by {
                        assert(self.bufs.keys()[j] == keys[j]);
                    }
                }
            } else {
                i += 1;
            }
            proof {
                n = n + 1;
            }
        }
        proof {
            assert(n == order.len());
            assert(order.take(n) =~= order);
            assert(order.skip(n) =~= Seq::empty());
            assert(self.bufs.keys() =~= order.filter(other));
            self.bufs.lemma_list();
            assert forall|k: (Seq<char>, Seq<char>)| #[trigger]
                self.bufs().contains_key(k) implies k.0 != session@ by {
                assert(self.bufs.keys().contains(k));
                let j = choose|j: int| 0 <= j < self.bufs.keys().len() && self.bufs.keys()[j] == k;
                assert(self.bufs.keys()[j].0 != session@);
            }
            assert(self.bufs() =~= without_session(start, session@));
        }
    }
}

/// The items of all sessions but one, in order.
pub open spec fn items_without(
    order: Seq<(Seq<char>, Seq<char>)>,
    session: Seq<char>,
) -> Seq<(Seq<char>, Seq<char>)> {
    order.filter(|k: (Seq<char>, Seq<char>)| k.0 != session)
}

/// The buffers of all sessions but one.
pub open spec fn without_session(
    bufs: Map<(Seq<char>, Seq<char>), BufView>,
    session: Seq<char>,
) -> Map<(Seq<char>, Seq<char>), BufView> {
    Map::new(
        |k: (Seq<char>, Seq<char>)| bufs.contains_key(k) && k.0 != session,
        |k: (Seq<char>, Seq<char>)| bufs[k],
    )
}

/// The buffers after a sweep: those that were due are flushed, the others as they
/// were.
pub open spec fn swept(
    bufs: Map<(Seq<char>, Seq<char>), BufView>,
    now: u64,
    max_age: u64,
    only: Option<Seq<char>>,
) -> Map<(Seq<char>, Seq<char>), BufView> {
    Map::new(
        |k: (Seq<char>, Seq<char>)| bufs.contains_key(k),
        |k: (Seq<char>, Seq<char>)|
            if due(k, bufs[k], now, max_age, only) {
                flushed(bufs[k], now)
            } else {
                bufs[k]
            },
    )
}

/// The buffers after a sweep that has gone through the first `n` items.
spec fn swept_first(
    bufs: Map<(Seq<char>, Seq<char>), BufView>,
    order: Seq<(Seq<char>, Seq<char>)>,
    n: int,
    now: u64,
    max_age: u64,
    only: Option<Seq<char>>,
) -> Map<(Seq<char>, Seq<char>), BufView> {
    Map::new(
        |k: (Seq<char>, Seq<char>)| bufs.contains_key(k),
        |k: (Seq<char>, Seq<char>)|
            if order.take(n).contains(k) && due(k, bufs[k], now, max_age, only) {
                flushed(bufs[k], now)
            } else {
                bufs[k]
            },
    )
}

/// What a sweep hands on: the text of each buffer that is due, in order.
pub open spec fn swept_batches(
    order: Seq<(Seq<char>, Seq<char>)>,
    bufs: Map<(Seq<char>, Seq<char>), BufView>,
    now: u64,
    max_age: u64,
    only: Option<Seq<char>>,
) -> Seq<(Seq<char>, BatchView)>
    decreases order.len(),
{
    if order.len() == 0 {
        Seq::empty()
    } else {
        let rest = swept_batches(order.drop_last(), bufs, now, max_age, only);
        let k = order.last();
        if due(k, bufs[k], now, max_age, only) {
            rest.push((k.0, delta_batch(k.1, bufs[k].seq, bufs[k].pending)))
        } else {
            rest
        }
    }
}

/// Whether a batch goes to the narrator at all: where any kind of text is narrated.
pub fn is_narrated(digests_on: bool, shorts_on: bool) -> (r: bool)
    ensures
        r == (digests_on || shorts_on),
{
    digests_on || shorts_on
}

// ── Laws ─────────────────────────────────────────────────────────────────────

/// What happens to a buffer.
pub enum BufEvent {
    /// A delta is appended.
    Delta { text: Seq<char>, now: u64 },
    /// A sweep takes it.
    Sweep { now: u64 },
}

/// A buffer after an event, and what it hands on: each time the number and the text.
pub open spec fn buf_step(b: BufView, e: BufEvent) -> (BufView, Seq<(u64, Seq<char>)>) {
    match e {
        BufEvent::Delta { text, now } => (
            appended(b, text, now),
            match ready(b, text) {
                Some(t) => seq![(b.seq, t)],
                None => Seq::empty(),
            },
        ),
        BufEvent::Sweep { now } => if b.pending.len() > 0 {
            (flushed(b, now), seq![(b.seq, b.pending)])
        } else {
            (b, Seq::empty())
        },
    }
}

/// A buffer after several events, and what it hands on.
pub open spec fn buf_run(b: BufView, events: Seq<BufEvent>) -> (BufView, Seq<(u64, Seq<char>)>)
    decreases events.len(),
{
    if events.len() == 0 {
        (b, Seq::empty())
    } else {
        let (w, out) = buf_run(b, events.drop_last());
        (buf_step(w, events.last()).0, out + buf_step(w, events.last()).1)
    }
}

/// All the text that was appended.
pub open spec fn appended_text(events: Seq<BufEvent>) -> Seq<char>
    decreases events.len(),
{
    if events.len() == 0 {
        Seq::empty()
    } else {
        match events.last() {
            BufEvent::Delta { text, .. } => appended_text(events.drop_last()) + text,
            BufEvent::Sweep { .. } => appended_text(events.drop_last()),
        }
    }
}

/// All the text that was handed on.
pub open spec fn handed_text(out: Seq<(u64, Seq<char>)>) -> Seq<char>
    decreases out.len(),
{
    if out.len() == 0 {
        Seq::empty()
    } else {
        handed_text(out.drop_last()) + out.last().1
    }
}

/// An item's text is handed on whole, once and in order, whenever its buffer is
/// flushed: what was handed on, and what still waits, are together what was appended.
/// The batches are numbered one after the other.
pub proof fn law_streamed_text_is_whole(b: BufView, events: Seq<BufEvent>)
    requires
        b.seq + events.len() <= u64::MAX,
    ensures
        ({
            let (w, out) = buf_run(b, events);
            &&& handed_text(out) + w.pending == b.pending + appended_text(events)
            &&& w.seq == b.seq + out.len()
            &&& out.len() <= events.len()
            &&& forall|i: int| 0 <= i < out.len() ==> (#[trigger] out[i]).0 == b.seq + i
        }),
    decreases events.len(),
{
    if events.len() == 0 {
        assert(handed_text(Seq::empty()) + b.pending =~= b.pending + appended_text(events));
    } else {
        let front = events.drop_last();
        law_streamed_text_is_whole(b, front);
        let (v, before) = buf_run(b, front);
        let (w, more) = buf_step(v, events.last());
        let out = before + more;
        if more.len() == 0 {
            assert(out =~= before);
        } else {
            assert(out.drop_last() =~= before);
            assert(out.last() == more[0]);
        }
        assert(handed_text(out) + w.pending =~= b.pending + appended_text(events)) by {
            assert(handed_text(before) + v.pending == b.pending + appended_text(front));
            match events.last() {
                BufEvent::Delta { text, .. } => {
                    assert(handed_text(before) + (v.pending + text) =~= (handed_text(before)
                        + v.pending) + text);
                    assert(b.pending + (appended_text(front) + text) =~= (b.pending
                        + appended_text(front)) + text);
                    if more.len() > 0 {
                        assert(handed_text(out) + w.pending =~= handed_text(before) + (v.pending
                            + text));
                    } else {
                        assert(handed_text(out) + w.pending =~= handed_text(before) + (v.pending
                            + text));
                    }
                },
                BufEvent::Sweep { .. } => {
                    assert(handed_text(out) + w.pending =~= handed_text(before) + v.pending);
                },
            }
        }
    }
}

/// Text is handed on as soon as it holds a line end, all of it at once and numbered by the
/// batches before it; until then it waits, in the order in which it came.
pub proof fn law_line_end_hands_text_on(b: BufView, delta: Seq<char>, now: u64)
    ensures
        ({
            let text = b.pending + delta;
            let after = appended(b, delta, now);
            &&& text.contains('\n') ==> ready(b, delta) == Some(text) && after.pending.len() == 0
                && after.last_batch == now && (b.seq < u64::MAX ==> after.seq == b.seq + 1)
            &&& !text.contains('\n') ==> ready(b, delta) is None && after.pending == text
                && after.seq == b.seq && after.last_batch == b.last_batch
        }),
        fresh_buf(now).pending.len() == 0,
        fresh_buf(now).seq == 0,
        fresh_buf(now).last_batch == now,
{
}

/// A batch of waiting text names its item and its number, holds the text, and is not the
/// last of its item.
pub proof fn law_batch_holds_the_text(item: Seq<char>, seq: u64, text: Seq<char>)
    ensures
        delta_batch(item, seq, text).key == item,
        delta_batch(item, seq, text).payload == (PayloadView::Delta { index: Some(seq), text }),
        !delta_batch(item, seq, text).is_final,
{
}

/// A sweep takes the text that waits: of one session all of it, else what has waited long
/// enough; a buffer without text is never taken.
pub proof fn law_what_a_sweep_takes(
    session: Seq<char>,
    item: Seq<char>,
    b: BufView,
    now: u64,
    max_age: u64,
    only: Seq<char>,
)
    requires
        b.last_batch <= now,
    ensures
        due((session, item), b, now, max_age, None) <==> b.pending.len() > 0 && now - b.last_batch
            >= max_age,
        due((session, item), b, now, max_age, Some(only)) <==> b.pending.len() > 0 && session
            == only,
{
}

/// A sweep hands on the text of each item that it takes, whole and once, in the order in
/// which the items came, and leaves that item's buffer empty; other items keep theirs.
pub proof fn law_sweep_hands_on_each_item_once(
    order: Seq<(Seq<char>, Seq<char>)>,
    bufs: Map<(Seq<char>, Seq<char>), BufView>,
    k: (Seq<char>, Seq<char>),
    now: u64,
    max_age: u64,
    only: Option<Seq<char>>,
)
    requires
        bufs.contains_key(k),
    ensures
        ({
            let before = swept_batches(order, bufs, now, max_age, only);
            let after = swept_batches(order.push(k), bufs, now, max_age, only);
            let left = swept(bufs, now, max_age, only)[k];
            &&& due(k, bufs[k], now, max_age, only) ==> after == before.push(
                (k.0, delta_batch(k.1, bufs[k].seq, bufs[k].pending)),
            ) && left.pending.len() == 0 && left.last_batch == now
            &&& !due(k, bufs[k], now, max_age, only) ==> after == before && left == bufs[k]
            &&& swept_batches(Seq::empty(), bufs, now, max_age, only).len() == 0
        }),
        forall|j: (Seq<char>, Seq<char>)| #[trigger]
            swept(bufs, now, max_age, only).contains_key(j) <==> bufs.contains_key(j),
{
    assert(order.push(k).drop_last() =~= order);
}

/// A session that is dropped leaves no text, and the text of every other session stays.
pub proof fn law_dropped_session_leaves_no_text(
    bufs: Map<(Seq<char>, Seq<char>), BufView>,
    session: Seq<char>,
    k: (Seq<char>, Seq<char>),
)
    ensures
        without_session(bufs, session).contains_key(k) <==> bufs.contains_key(k) && k.0 != session,
        without_session(bufs, session).contains_key(k) ==> without_session(bufs, session)[k]
            == bufs[k],
{
}

} // verus!
