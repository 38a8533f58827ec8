//! Which updates files are followed, and what is handed on of them.
//!
//! The caller runs the loop: it reads the configuration, finds and opens the files,
//! and hands the batches to the narrator.

use super::proto::{
    batch_key, batch_key_of, line_chunk, parse_agent_text_chunk, AgentTextChunk, ChunkView,
};
use super::tail::{attached_tail, fed, finished, line_texts, sighted, JsonlTail, TailView};
use crate::assoc::AssocMap;
use crate::coalesce::{
    appended, batch_view, batch_views, delta_batch, fresh_buf, items_without, ready, swept,
    swept_batches, without_session, BatchView, BufView, Coalescer, StreamBatch,
};
use crate::codex_stream::attached::{items_not_in, without, without_bufs};
use crate::seqs::{
    filter_out, lemma_filter_alike, lemma_filter_all, lemma_filter_members, lemma_filter_none,
    lemma_filter_step, lemma_filter_twice, lemma_filter_unique, lemma_not_in_none,
    lemma_not_in_step, lemma_take_contains, not_in,
};
use crate::text::{contains_text, texts};
use vstd::prelude::*;

verus! {

/// How long a pass waits for a session to come or go, in milliseconds.
pub const TICK: u64 = 120;

/// How long a parked supervisor waits for one.
pub const PARKED_WAIT: u64 = 2000;

/// The age at which buffered text is handed on without a newline.
pub const FLUSH_AGE: u64 = 150;

/// How long a session that no hook mentions is remembered.
pub const IDLE_TTL: u64 = 43_200_000;

/// A file that is followed.
pub struct Attached {
    tail: JsonlTail,
    path: String,
}

/// An [`Attached`] as mathematical values.
#[verifier::ext_equal]
pub struct FileView {
    /// How far the file was read.
    pub tail: TailView,
    /// Where the file is.
    pub path: Seq<char>,
}

impl View for Attached {
    type V = FileView;

    closed spec fn view(&self) -> FileView {
        FileView { tail: self.tail@, path: self.path@ }
    }
}

/// The files that are followed, and the text that waits to be handed on.
pub struct Supervisor {
    attached: AssocMap<String, Attached>,
    coalescer: Coalescer,
}

/// A [`Supervisor`] as mathematical values.
#[verifier::ext_equal]
pub struct SupervisorView {
    /// The file of each session that is followed.
    pub files: Map<Seq<char>, FileView>,
    /// These sessions, in the order in which they came.
    pub sessions: Seq<Seq<char>>,
    /// The text that waits, for each item of a session.
    pub bufs: Map<(Seq<char>, Seq<char>), BufView>,
    /// These items, in the order in which they came.
    pub items: Seq<(Seq<char>, Seq<char>)>,
}

/// The files of a table, as mathematical values.
pub open spec fn file_views(m: Map<Seq<char>, Attached>) -> Map<Seq<char>, FileView> {
    m.map_values(|a: Attached| a@)
}

impl View for Supervisor {
    type V = SupervisorView;

    closed spec fn view(&self) -> SupervisorView {
        SupervisorView {
            files: file_views(self.attached@),
            sessions: self.attached.keys(),
            bufs: self.coalescer.bufs(),
            items: self.coalescer.order(),
        }
    }
}

impl SupervisorView {
    /// Each followed session is listed once, and text waits only for these.
    pub open spec fn inv(self) -> bool {
        &&& self.sessions.no_duplicates()
        &&& forall|s: Seq<char>| #[trigger]
            self.files.contains_key(s) <==> self.sessions.contains(s)
        &&& forall|k: (Seq<char>, Seq<char>)| #[trigger]
            self.bufs.contains_key(k) ==> self.files.contains_key(k.0)
        &&& forall|k: (Seq<char>, Seq<char>)| #[trigger]
            self.bufs.contains_key(k) <==> self.items.contains(k)
    }
}

// ── Sessions that come and go ────────────────────────────────────────────────

/// Whether there is nothing to do.
pub open spec fn parks(stream_on: bool, home_exists: bool, wanted: Seq<Seq<char>>) -> bool {
    !stream_on || !home_exists || wanted.len() == 0
}

/// Whether there is nothing to do: streaming is off, there is no Grok here, or no
/// session is known.
pub fn should_park(stream_on: bool, home_exists: bool, wanted: &Vec<String>) -> (r: bool)
    ensures
        r == parks(stream_on, home_exists, texts(wanted@)),
{
    !stream_on || !home_exists || wanted.len() == 0
}

/// A supervisor without the sessions in `gone`, and without their text.
pub open spec fn dropped(v: SupervisorView, gone: Seq<Seq<char>>) -> SupervisorView {
    SupervisorView {
        files: without(v.files, gone),
        sessions: not_in(v.sessions, gone),
        bufs: without_bufs(v.bufs, gone),
        items: items_not_in(v.items, gone),
    }
}

/// The followed sessions that are not wanted any more; all of them while parked.
pub open spec fn unwanted(v: SupervisorView, park: bool, wanted: Seq<Seq<char>>) -> Seq<
    Seq<char>,
> {
    v.sessions.filter(|s: Seq<char>| park || !wanted.contains(s))
}

/// The wanted sessions that are not followed yet.
pub open spec fn missing(v: SupervisorView, wanted: Seq<Seq<char>>) -> Seq<Seq<char>> {
    wanted.filter(|s: Seq<char>| !v.files.contains_key(s))
}

// ── Text ─────────────────────────────────────────────────────────────────────

/// A delta of a session: the supervisor after it, and what is handed on.
pub open spec fn heard(v: SupervisorView, session: Seq<char>, chunk: ChunkView, now: u64) -> (
    SupervisorView,
    Seq<(Seq<char>, BatchView)>,
) {
    let item = batch_key_of(chunk, session);
    let k = (session, item);
    let b = if v.bufs.contains_key(k) {
        v.bufs[k]
    } else {
        fresh_buf(now)
    };
    (
        SupervisorView {
            bufs: v.bufs.insert(k, appended(b, chunk.text, now)),
            items: if v.bufs.contains_key(k) {
                v.items
            } else {
                v.items.push(k)
            },
            ..v
        },
        match ready(b, chunk.text) {
            Some(text) => seq![(session, delta_batch(item, b.seq, text))],
            None => Seq::empty(),
        },
    )
}

/// Lines of a session's file: the supervisor after them, and what is handed on.
pub open spec fn heard_lines(
    v: SupervisorView,
    session: Seq<char>,
    lines: Seq<Seq<char>>,
    now: u64,
) -> (SupervisorView, Seq<(Seq<char>, BatchView)>)
    decreases lines.len(),
{
    if lines.len() == 0 {
        (v, Seq::empty())
    } else {
        let (w, out) = heard_lines(v, session, lines.drop_last(), now);
        match line_chunk(lines.last()) {
            Some(chunk) => (heard(w, session, chunk, now).0, out + heard(w, session, chunk, now).1),
            None => (w, out),
        }
    }
}

/// What was seen of a followed file.
#[derive(Debug, PartialEq, Eq)]
pub enum Sighting {
    /// There is no file at its path.
    Gone,
    /// It went away while it was opened.
    Missed,
    /// It could not be read.
    Failed,
    /// It holds this many bytes.
    Length(u64),
}

/// A supervisor with another tail for a session.
pub open spec fn with_tail(v: SupervisorView, session: Seq<char>, tail: TailView) -> SupervisorView {
    SupervisorView {
        files: v.files.insert(session, FileView { tail, path: v.files[session].path }),
        ..v
    }
}

/// A supervisor after what was seen of a session's file.
pub open spec fn observed(v: SupervisorView, session: Seq<char>, s: Sighting) -> SupervisorView {
    match s {
        Sighting::Gone | Sighting::Failed => dropped(v, seq![session]),
        Sighting::Missed => v,
        Sighting::Length(len) => with_tail(v, session, sighted(v.files[session].tail, len)),
    }
}

impl Supervisor {
    /// The tables are well formed and fit together.
    pub closed spec fn wf(&self) -> bool {
        &&& self.attached.wf()
        &&& self.coalescer.wf()
        &&& self@.inv()
    }

    /// What [`Supervisor::wf`] says of the view.
    pub proof fn lemma_inv(&self)
        requires
            self.wf(),
        ensures
            self@.inv(),
    {
    }

    /// Nothing is followed.
    pub fn new() -> (r: Self)
        ensures
            r.wf(),
            r@ == (SupervisorView {
                files: Map::empty(),
                sessions: Seq::empty(),
                bufs: Map::empty(),
                items: Seq::empty(),
            }),
    {
        let r = Supervisor { attached: AssocMap::new(), coalescer: Coalescer::new() };
        proof {
            assert(r@.files =~= Map::empty());
            assert(r@.sessions =~= Seq::empty());
            assert(r@.items =~= Seq::empty());
        }
        r
    }

    /// How many sessions are followed.
    pub fn len(&self) -> (r: usize)
        ensures
            r == self@.sessions.len(),
    {
        self.attached.len()
    }

    /// Whether a session is followed.
    pub fn follows(&self, session: &str) -> (r: bool)
        requires
            self.wf(),
        ensures
            r == self@.files.contains_key(session@),
    {
        self.attached.contains(&session.to_owned())
    }

    /// The sessions that are followed, in the order in which they came.
    pub fn sessions(&self) -> (r: Vec<String>)
        requires
            self.wf(),
        ensures
            texts(r@) == self@.sessions,
    {
        let mut out: Vec<String> = Vec::new();
        let mut i: usize = 0;
        assert(texts(out@) =~= self@.sessions.take(0));
        while i < self.attached.len()
            invariant
                i <= self@.sessions.len(),
                texts(out@) == self@.sessions.take(i as int),
            decreases self@.sessions.len() - i,
        {
            let (s, _) = self.attached.entry(i);
            let ghost before = texts(out@);
            out.push(s.as_str().to_owned());
            proof {
                assert(texts(out@) =~= before.push(s@));
                assert(self@.sessions.take(i + 1) =~= self@.sessions.take(i as int).push(s@));
            }
            i += 1;
        }
        assert(self@.sessions.take(i as int) =~= self@.sessions);
        out
    }

    /// Where a session's file is.
    pub fn path(&self, session: &str) -> (r: Option<String>)
        requires
            self.wf(),
        ensures
            r is Some <==> self@.files.contains_key(session@),
            r is Some ==> r->0@ == self@.files[session@].path,
    {
        match self.attached.get(&session.to_owned()) {
            Some(a) => Some(a.path.as_str().to_owned()),
            None => None,
        }
    }

    /// Stops following sessions, and drops the text that waits for them.
    fn drop_all(&mut self, gone: &Vec<String>)
        requires
            old(self).wf(),
        ensures
            final(self).wf(),
            final(self)@ == dropped(old(self)@, texts(gone@)),
    {
        let ghost v = self@;
        let ghost g = texts(gone@);
        let mut i: usize = 0;
        proof {
            lemma_dropped_none(v, g.take(0));
        }
        while i < gone.len()
            invariant
                i <= gone.len(),
                g == texts(gone@),
                v == old(self)@,
                v.inv(),
                self.attached.wf(),
                self.coalescer.wf(),
                self@ == dropped(v, g.take(i as int)),
            decreases gone.len() - i,
        {
            let session = &gone[i];
            let ghost before = self@;
            proof {
                lemma_dropped_step(v, g, i as int);
                assert(g[i as int] == session@);
            }
            let _ = self.attached.remove(session);
            proof {
                assert(self@.files =~= before.files.remove(session@));
            }
            self.coalescer.drop_session(session.as_str());
            i += 1;
        }
        proof {
            assert(g.take(i as int) =~= g);
            lemma_dropped_inv(v, g);
        }
    }

    /// Looks at what is wanted: sessions that are not wanted any more are dropped, with
    /// the text that waits for them. Gives the sessions to attach to, or `None` while
    /// parked, where every session is dropped: a later start reads nothing of what was
    /// written in between.
    pub fn settle(&mut self, stream_on: bool, home_exists: bool, wanted: &Vec<String>) -> (r:
        Option<Vec<String>>)
        requires
            old(self).wf(),
        ensures
            final(self).wf(),
            ({
                let park = parks(stream_on, home_exists, texts(wanted@));
                let w = dropped(old(self)@, unwanted(old(self)@, park, texts(wanted@)));
                &&& final(self)@ == w
                &&& r is None <==> park
                &&& r is Some ==> texts(r->0@) == missing(w, texts(wanted@))
            }),
    {
        let park = should_park(stream_on, home_exists, wanted);
        let ghost v = self@;
        let ghost bad = |s: Seq<char>| park || !texts(wanted@).contains(s);
        let followed = self.sessions();
        let mut gone: Vec<String> = Vec::new();
        let mut i: usize = 0;
        proof {
            lemma_filter_none(v.sessions, bad);
            assert(texts(gone@) =~= v.sessions.take(0).filter(bad));
        }
        while i < followed.len()
            invariant
                i <= followed.len(),
                texts(followed@) == v.sessions,
                bad == (|s: Seq<char>| park || !texts(wanted@).contains(s)),
                texts(gone@) == v.sessions.take(i as int).filter(bad),
            decreases followed.len() - i,
        {
            proof {
                lemma_filter_step(v.sessions, i as int, bad);
                assert(v.sessions[i as int] == followed[i as int]@);
            }
            if park || !contains_text(wanted, followed[i].as_str()) {
                let ghost before = texts(gone@);
                gone.push(followed[i].as_str().to_owned());
                assert(texts(gone@) =~= before.push(followed[i as int]@));
            }
            i += 1;
        }
        assert(v.sessions.take(i as int) =~= v.sessions);
        self.drop_all(&gone);
        if park {
            None
        } else {
            Some(self.unattached(wanted))
        }
    }

    /// The wanted sessions that are not followed yet.
    fn unattached(&self, wanted: &Vec<String>) -> (r: Vec<String>)
        requires
            self.wf(),
        ensures
            texts(r@) == missing(self@, texts(wanted@)),
    {
        let ghost all = texts(wanted@);
        let ghost new = |s: Seq<char>| !self@.files.contains_key(s);
        let mut out: Vec<String> = Vec::new();
        let mut i: usize = 0;
        proof {
            lemma_filter_none(all, new);
            assert(texts(out@) =~= all.take(0).filter(new));
        }
        while i < wanted.len()
            invariant
                i <= wanted.len(),
                self.wf(),
                all == texts(wanted@),
                new == (|s: Seq<char>| !self@.files.contains_key(s)),
                texts(out@) == all.take(i as int).filter(new),
            decreases wanted.len() - i,
        {
            proof {
                lemma_filter_step(all, i as int, new);
                assert(all[i as int] == wanted[i as int]@);
            }
            if !self.follows(wanted[i].as_str()) {
                let ghost before = texts(out@);
                out.push(wanted[i].as_str().to_owned());
                assert(texts(out@) =~= before.push(wanted[i as int]@));
            }
            i += 1;
        }
        assert(all.take(i as int) =~= all);
        out
    }

    /// Follows a session's file, which holds `len` bytes, from its end.
    pub fn attach(&mut self, session: &str, path: String, len: u64)
        requires
            old(self).wf(),
            !old(self)@.files.contains_key(session@),
        ensures
            final(self).wf(),
            final(self)@ == (SupervisorView {
                files: old(self)@.files.insert(
                    session@,
                    FileView { tail: attached_tail(len, len), path: path@ },
                ),
                sessions: old(self)@.sessions.push(session@),
                ..old(self)@
            }),
    {
        let ghost v = self@;
        let a = Attached { tail: JsonlTail::attach_at_eof(len), path };
        let ghost f = a@;
        self.attached.insert(session.to_owned(), a);
        proof {
            assert(self@.files =~= v.files.insert(session@, f));
            let t = v.sessions;
            assert(t.push(session@).no_duplicates());
            assert forall|s: Seq<char>| #[trigger]
                self@.files.contains_key(s) <==> self@.sessions.contains(s) by {
                self.attached.lemma_list();
            }
        }
    }

    /// Takes the file of a followed session out, leaving an empty one in its place.
    fn take_file(&mut self, session: &str) -> (r: Attached)
        requires
            old(self).wf(),
            old(self)@.files.contains_key(session@),
        ensures
            final(self).wf(),
            r@ == old(self)@.files[session@],
            final(self)@ == (SupervisorView {
                files: old(self)@.files.insert(session@, final(self)@.files[session@]),
                ..old(self)@
            }),
    {
        let ghost v = self@;
        let key = session.to_owned();
        match self.attached.find(&key) {
            Some(i) => {
                let blank = Attached { tail: JsonlTail::attach_at_eof(0), path: String::new() };
                let ghost b = blank@;
                let a = self.attached.set_value(i, blank);
                assert(self@.files =~= v.files.insert(session@, b));
                a
            },
            None => Attached { tail: JsonlTail::attach_at_eof(0), path: String::new() },
        }
    }

    /// Gives a followed session a file.
    fn put_file(&mut self, session: &str, a: Attached)
        requires
            old(self).wf(),
            old(self)@.files.contains_key(session@),
        ensures
            final(self).wf(),
            final(self)@ == (SupervisorView {
                files: old(self)@.files.insert(session@, a@),
                ..old(self)@
            }),
    {
        let ghost v = self@;
        self.attached.insert(session.to_owned(), a);
        assert(self@.files =~= v.files.insert(session@, a@));
    }

    /// Takes note of what was seen of a followed file. Gives where to read on from,
    /// where there is something to read; a file that is gone or cannot be read is not
    /// followed any more, so that the next pass looks for it anew.
    pub fn observe(&mut self, session: &str, seen: Sighting) -> (r: Option<u64>)
        requires
            old(self).wf(),
            old(self)@.files.contains_key(session@),
        ensures
            final(self).wf(),
            final(self)@ == observed(old(self)@, session@, seen),
            r == (match seen {
                Sighting::Length(len) => {
                    let t = sighted(old(self)@.files[session@].tail, len);
                    if len == t.offset && t.partial.len() == 0 {
                        None
                    } else {
                        Some(t.offset)
                    }
                },
                _ => None,
            }),
    {
        match seen {
            Sighting::Gone | Sighting::Failed => {
                let mut gone: Vec<String> = Vec::new();
                gone.push(session.to_owned());
                assert(texts(gone@) =~= seq![session@]);
                self.drop_all(&gone);
                None
            },
            Sighting::Missed => None,
            Sighting::Length(len) => {
                let mut a = self.take_file(session);
                let r = a.tail.sight(len);
                self.put_file(session, a);
                r
            },
        }
    }

    /// Takes what was read of a followed file: the lines that it finishes, each a
    /// notification.
    pub fn feed(&mut self, session: &str, bytes: &Vec<u8>) -> (r: Vec<String>)
        requires
            old(self).wf(),
            old(self)@.files.contains_key(session@),
        ensures
            final(self).wf(),
            final(self)@ == with_tail(
                old(self)@,
                session@,
                fed(old(self)@.files[session@].tail, bytes@),
            ),
            texts(r@) == line_texts(finished(old(self)@.files[session@].tail, bytes@)),
    {
        let mut a = self.take_file(session);
        let lines = a.tail.feed(bytes);
        self.put_file(session, a);
        lines
    }

    /// Takes a delta of a followed session; what it makes ready is handed on.
    pub fn on_chunk(&mut self, session: &str, chunk: &AgentTextChunk, now: u64) -> (r: Option<
        (String, StreamBatch),
    >)
        requires
            old(self).wf(),
            old(self)@.files.contains_key(session@),
        ensures
            final(self).wf(),
            final(self)@ == heard(old(self)@, session@, chunk@, now).0,
            one_batch(r) == heard(old(self)@, session@, chunk@, now).1,
    {
        let ghost v = self@;
        let key = batch_key(chunk, session);
        let r = self.coalescer.on_delta(session, key.as_str(), chunk.text.as_str(), now);
        proof {
            self.coalescer.lemma_order();
            assert(one_batch(r) =~= heard(v, session@, chunk@, now).1);
        }
        r
    }

    /// Takes lines of a followed session's file; what they make ready is handed on.
    /// Lines that carry no delta are passed over.
    pub fn on_lines(&mut self, session: &str, lines: &Vec<String>, now: u64) -> (r: Vec<
        (String, StreamBatch),
    >)
        requires
            old(self).wf(),
            old(self)@.files.contains_key(session@),
        ensures
            final(self).wf(),
            final(self)@ == heard_lines(old(self)@, session@, texts(lines@), now).0,
            batch_views(r@) == heard_lines(old(self)@, session@, texts(lines@), now).1,
    {
        let ghost v = self@;
        let ghost all = texts(lines@);
        let mut out: Vec<(String, StreamBatch)> = Vec::new();
        let mut i: usize = 0;
        assert(batch_views(out@) =~= heard_lines(v, session@, all.take(0), now).1);
        while i < lines.len()
            invariant
                i <= lines.len(),
                all == texts(lines@),
                self.wf(),
                self@.files.contains_key(session@),
                self@ == heard_lines(v, session@, all.take(i as int), now).0,
                batch_views(out@) == heard_lines(v, session@, all.take(i as int), now).1,
            decreases lines.len() - i,
        {
            assert(all.take(i + 1).drop_last() =~= all.take(i as int));
            assert(all.take(i + 1).last() == lines[i as int]@);
            let ghost before = batch_views(out@);
            match parse_agent_text_chunk(lines[i].as_str()) {
                Some(chunk) => {
                    let ghost w = self@;
                    match self.on_chunk(session, &chunk, now) {
                        Some(b) => {
                            let ghost bv = batch_view(b);
                            out.push(b);
                            assert(batch_views(out@) =~= before + seq![bv]);
                        },
                        None => {
                            assert(before + Seq::<(Seq<char>, BatchView)>::empty() =~= before);
                        },
                    }
                },
                None => {},
            }
            i += 1;
        }
        assert(all.take(i as int) =~= all);
        out
    }

    /// Hands on the text that has waited for `max_age`, which is [`FLUSH_AGE`] in a
    /// running engine.
    pub fn flush_aged(&mut self, now: u64, max_age: u64) -> (r: Vec<(String, StreamBatch)>)
        requires
            old(self).wf(),
        ensures
            final(self).wf(),
            final(self)@ == (SupervisorView {
                bufs: swept(old(self)@.bufs, now, max_age, None),
                ..old(self)@
            }),
            batch_views(r@) == swept_batches(
                old(self)@.items,
                old(self)@.bufs,
                now,
                max_age,
                None,
            ),
    {
        let r = self.coalescer.flush_aged(now, max_age, None);
        proof {
            self.coalescer.lemma_order();
        }
        r
    }
}

/// The batches of a single result.
pub open spec fn one_batch(r: Option<(String, StreamBatch)>) -> Seq<(Seq<char>, BatchView)> {
    match r {
        Some(b) => seq![batch_view(b)],
        None => Seq::empty(),
    }
}

/// Dropping no session changes nothing.
proof fn lemma_dropped_none(v: SupervisorView, gone: Seq<Seq<char>>)
    requires
        gone.len() == 0,
    ensures
        dropped(v, gone) == v,
{
    lemma_not_in_none(v.sessions, gone);
    lemma_filter_all(v.items, |k: (Seq<char>, Seq<char>)| !gone.contains(k.0));
    assert(without(v.files, gone) =~= v.files);
    assert(without_bufs(v.bufs, gone) =~= v.bufs);
}

/// Dropping one session more.
proof fn lemma_dropped_step(v: SupervisorView, gone: Seq<Seq<char>>, n: int)
    requires
        0 <= n < gone.len(),
    ensures
        without(v.files, gone.take(n)).remove(gone[n]) == without(v.files, gone.take(n + 1)),
        filter_out(not_in(v.sessions, gone.take(n)), gone[n]) == not_in(
            v.sessions,
            gone.take(n + 1),
        ),
        without_session(without_bufs(v.bufs, gone.take(n)), gone[n]) == without_bufs(
            v.bufs,
            gone.take(n + 1),
        ),
        items_without(items_not_in(v.items, gone.take(n)), gone[n]) == items_not_in(
            v.items,
            gone.take(n + 1),
        ),
{
    lemma_take_contains(gone, n);
    lemma_not_in_step(v.sessions, gone, n);
    assert(without(v.files, gone.take(n)).remove(gone[n]) =~= without(v.files, gone.take(n + 1)));
    assert(without_session(without_bufs(v.bufs, gone.take(n)), gone[n]) =~= without_bufs(
        v.bufs,
        gone.take(n + 1),
    ));
    let p = |k: (Seq<char>, Seq<char>)| !gone.take(n).contains(k.0);
    let q = |k: (Seq<char>, Seq<char>)| k.0 != gone[n];
    lemma_filter_twice(v.items, p, q);
    lemma_filter_alike(
        v.items,
        |k: (Seq<char>, Seq<char>)| p(k) && q(k),
        |k: (Seq<char>, Seq<char>)| !gone.take(n + 1).contains(k.0),
    );
}

/// Dropping sessions keeps the invariant.
proof fn lemma_dropped_inv(v: SupervisorView, gone: Seq<Seq<char>>)
    requires
        v.inv(),
    ensures
        dropped(v, gone).inv(),
{
    lemma_filter_unique(v.sessions, |x: Seq<char>| !gone.contains(x));
    lemma_filter_members(v.sessions, |x: Seq<char>| !gone.contains(x));
    lemma_filter_members(v.items, |k: (Seq<char>, Seq<char>)| !gone.contains(k.0));
}

/// While parked nothing is followed, and no text waits.
pub proof fn law_parking_drops_everything(v: SupervisorView, park: bool, wanted: Seq<Seq<char>>)
    requires
        v.inv(),
        park,
    ensures
        dropped(v, unwanted(v, park, wanted)) == (SupervisorView {
            files: Map::empty(),
            sessions: Seq::empty(),
            bufs: Map::empty(),
            items: Seq::empty(),
        }),
{
    let gone = unwanted(v, park, wanted);
    lemma_filter_all(v.sessions, |s: Seq<char>| park || !wanted.contains(s));
    assert(gone == v.sessions);
    lemma_dropped_inv(v, gone);
    let w = dropped(v, gone);
    lemma_filter_members(v.sessions, |x: Seq<char>| !gone.contains(x));
    assert(w.files =~= Map::empty());
    assert(w.bufs =~= Map::empty());
    assert(w.sessions =~= Seq::empty()) by {
        if w.sessions.len() > 0 {
            assert(w.sessions.contains(w.sessions[0]));
        }
    }
    assert(w.items =~= Seq::empty()) by {
        if w.items.len() > 0 {
            assert(w.items.contains(w.items[0]));
            assert(w.bufs.contains_key(w.items[0]));
        }
    }
}

/// After a pass has looked at what is wanted, a session that is not wanted is not
/// followed and has no text waiting; one that is wanted keeps its place in its file and
/// its text.
pub proof fn law_only_wanted_sessions_stay(v: SupervisorView, wanted: Seq<Seq<char>>, session: Seq<
    char,
>)
    requires
        v.inv(),
    ensures
        ({
            let w = dropped(v, unwanted(v, false, wanted));
            if wanted.contains(session) {
                &&& w.files.contains_key(session) == v.files.contains_key(session)
                &&& v.files.contains_key(session) ==> w.files[session] == v.files[session]
                &&& forall|item: Seq<char>| #[trigger]
                    w.bufs.contains_key((session, item)) == v.bufs.contains_key((session, item))
            } else {
                &&& !w.files.contains_key(session)
                &&& forall|item: Seq<char>| !#[trigger] w.bufs.contains_key((session, item))
            }
        }),
{
    lemma_filter_members(v.sessions, |s: Seq<char>| false || !wanted.contains(s));
}

/// Text that is handed on belongs to the session whose file it was read from, and
/// other sessions' text is left as it was.
pub proof fn law_lines_touch_one_session(
    v: SupervisorView,
    session: Seq<char>,
    lines: Seq<Seq<char>>,
    now: u64,
)
    ensures
        ({
            let (w, out) = heard_lines(v, session, lines, now);
            &&& w.files == v.files
            &&& w.sessions == v.sessions
            &&& forall|i: int| 0 <= i < out.len() ==> (#[trigger] out[i]).0 == session
            &&& forall|k: (Seq<char>, Seq<char>)|
                k.0 != session ==> (#[trigger] w.bufs.contains_key(k) == v.bufs.contains_key(k))
                    && (v.bufs.contains_key(k) ==> w.bufs[k] == v.bufs[k])
        }),
    decreases lines.len(),
{
    if lines.len() > 0 {
        law_lines_touch_one_session(v, session, lines.drop_last(), now);
    }
}

/// What a delta does to the text of its item: it is added to what waits, and all of it is
/// handed on, for that session and that item, once it holds a line end. The item is the
/// prompt that the delta answers, else the session.
pub proof fn law_delta_joins_its_item(
    v: SupervisorView,
    session: Seq<char>,
    chunk: ChunkView,
    now: u64,
)
    ensures
        ({
            let item = match chunk.prompt_id {
                Some(p) => p,
                None => session,
            };
            let k = (session, item);
            let waiting = if v.bufs.contains_key(k) {
                v.bufs[k].pending
            } else {
                Seq::empty()
            };
            let text = waiting + chunk.text;
            let (w, out) = heard(v, session, chunk, now);
            &&& w.bufs.contains_key(k)
            &&& text.contains('\n') ==> w.bufs[k].pending.len() == 0 && out.len() == 1 && out[0].0
                == session && out[0].1.key == item && (out[0].1.payload matches
                crate::coalesce::PayloadView::Delta { text: t, .. } && t == text)
                && !out[0].1.is_final
            &&& !text.contains('\n') ==> w.bufs[k].pending == text && out.len() == 0
            &&& w.files == v.files && w.sessions == v.sessions
        }),
{
}

/// The supervisor rests where streaming is off, where Grok is not here, and where no
/// session is known; and only then.
pub proof fn law_when_the_supervisor_rests(wanted: Seq<Seq<char>>, s: Seq<char>)
    ensures
        parks(false, true, wanted.push(s)),
        parks(true, false, wanted.push(s)),
        parks(true, true, Seq::empty()),
        !parks(true, true, wanted.push(s)),
{
}

/// What a pass changes: it drops the followed sessions that are not wanted, and looks for
/// the wanted ones that are not followed.
pub proof fn law_what_a_pass_changes(v: SupervisorView, wanted: Seq<Seq<char>>, s: Seq<char>)
    ensures
        unwanted(v, false, wanted).contains(s) <==> v.sessions.contains(s) && !wanted.contains(s),
        unwanted(v, true, wanted).contains(s) <==> v.sessions.contains(s),
        missing(v, wanted).contains(s) <==> wanted.contains(s) && !v.files.contains_key(s),
{
    lemma_unwanted(v, false, wanted, s);
    lemma_unwanted(v, true, wanted, s);
    lemma_filter_members(wanted, |s: Seq<char>| !v.files.contains_key(s));
}

proof fn lemma_unwanted(v: SupervisorView, park: bool, wanted: Seq<Seq<char>>, s: Seq<char>)
    ensures
        unwanted(v, park, wanted).contains(s) <==> v.sessions.contains(s) && (park
            || !wanted.contains(s)),
{
    lemma_filter_members(v.sessions, |s: Seq<char>| park || !wanted.contains(s));
}

/// A file that is gone or cannot be read is followed no longer and its text is dropped; a
/// file that was missed for a moment is followed on; one that is there is read from where
/// the last reading ended, or from its beginning where it has become shorter.
pub proof fn law_what_is_seen_of_a_file(v: SupervisorView, session: Seq<char>, len: u64)
    ensures
        !observed(v, session, Sighting::Gone).files.contains_key(session),
        !observed(v, session, Sighting::Failed).files.contains_key(session),
        forall|item: Seq<char>|
            !#[trigger] observed(v, session, Sighting::Gone).bufs.contains_key((session, item)),
        observed(v, session, Sighting::Missed) == v,
        ({
            let w = observed(v, session, Sighting::Length(len));
            let t = v.files[session].tail;
            &&& w.files[session].path == v.files[session].path
            &&& len >= t.offset ==> w.files[session].tail == t
            &&& len < t.offset ==> w.files[session].tail.offset == 0
                && w.files[session].tail.partial.len() == 0
            &&& w.bufs == v.bufs && w.sessions == v.sessions
        }),
{
    assert(seq![session].contains(session)) by {
        assert(seq![session][0] == session);
    }
}

/// The items with waiting text are listed in the order in which their first piece came.
pub proof fn law_items_are_listed_as_they_come(
    v: SupervisorView,
    session: Seq<char>,
    prompt: Seq<char>,
    chunk: ChunkView,
    now: u64,
)
    requires
        chunk.prompt_id == Some(prompt),
    ensures
        v.bufs.contains_key((session, prompt)) ==> heard(v, session, chunk, now).0.items
            == v.items,
        !v.bufs.contains_key((session, prompt)) ==> heard(v, session, chunk, now).0.items
            == v.items.push((session, prompt)),
{
}

} // verus!
