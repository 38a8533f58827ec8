//! One attached connection: which threads are followed, which requests are out, and
//! what each event on the connection leads to.
//!
//! The caller owns the socket, the clock and the session registry. Times are
//! milliseconds of one monotone clock.

use super::client::INITIALIZE_ID;
use super::proto::{
    loaded_ids, loaded_thread_ids, reported_session, resumed_session_id, session_for_thread,
    thread_loaded_list_request, thread_request, thread_resume_request, thread_unsubscribe_request,
    Incoming, IncomingView,
};
use crate::assoc::{AssocMap, MapKey};
use crate::coalesce::{
    appended, batch_view, batch_views, delta_batch, fresh_buf, items_without, ready, swept,
    swept_batches, without_session, BatchView, BufView, Coalescer, PayloadView, StreamBatch,
};
use crate::json::{json_opt, Json, JsonView};
use crate::seqs::{
    filter_out, lemma_filter_alike, lemma_filter_members, lemma_filter_none, lemma_filter_step,
    lemma_filter_twice, lemma_filter_unique, lemma_not_in_none, lemma_not_in_step,
    lemma_take_contains, not_in,
};
use crate::text::{contains_text, same_text, text_opt, texts};
use vstd::prelude::*;

verus! {

/// How the loop on a connection is paced, in milliseconds.
pub struct Tunables {
    /// How often the configuration is read again and idle sessions are looked for.
    pub cfg_refresh: u64,
    /// How long until an unmatched session is looked for again.
    pub resolve_retry: u64,
    /// After how many fruitless lists a session is given up until its next mention.
    pub resolve_tries: u32,
    /// How often the loaded threads are listed regardless.
    pub relist: u64,
    /// How long a followed session may stay silent.
    pub idle_ttl: u64,
    /// After how long a quiet buffer is handed on.
    pub flush_age: u64,
    /// How long a reply may take.
    pub request_timeout: u64,
}

impl Default for Tunables {
    fn default() -> (r: Self)
        ensures
            r == (Tunables {
                cfg_refresh: 2000,
                resolve_retry: 2000,
                resolve_tries: 3,
                relist: 60_000,
                idle_ttl: 43_200_000,
                flush_age: 150,
                request_timeout: 10_000,
            }),
    {
        Tunables {
            cfg_refresh: 2000,
            resolve_retry: 2000,
            resolve_tries: 3,
            relist: 60_000,
            idle_ttl: 43_200_000,
            flush_age: 150,
            request_timeout: 10_000,
        }
    }
}

/// Why a connection was left in good order.
#[derive(Debug, Clone, Copy, PartialEq, Eq, Structural)]
pub enum Detach {
    /// The engine is stopping.
    Shutdown,
    /// Streaming was switched off, or Codex is gone.
    Disabled,
    /// Another endpoint was configured.
    Reconfigure,
}

/// How far the search for a session's thread has come.
#[derive(Debug, Clone, Copy, PartialEq, Eq, Structural)]
pub struct ResolveState {
    pub tries: u32,
    pub next_try: u64,
    /// Given up until the session is mentioned again.
    pub negative: bool,
}

/// A followed thread's session.
#[derive(Debug, PartialEq, Eq)]
pub struct ResumedSession {
    pub session: String,
    pub last_activity: u64,
}

/// A [`ResumedSession`] by its characters.
pub struct ResumedView {
    pub session: Seq<char>,
    pub last_activity: u64,
}

impl View for ResumedSession {
    type V = ResumedView;

    open spec fn view(&self) -> ResumedView {
        ResumedView { session: self.session@, last_activity: self.last_activity }
    }
}

/// A request whose reply is awaited.
#[derive(Debug, PartialEq, Eq)]
pub enum Pending {
    LoadedList { sent_at: u64 },
    Resume { thread_id: String, session: String, sent_at: u64 },
}

/// A [`Pending`] by its characters.
pub enum PendingView {
    LoadedList { sent_at: u64 },
    Resume { thread_id: Seq<char>, session: Seq<char>, sent_at: u64 },
}

impl View for Pending {
    type V = PendingView;

    open spec fn view(&self) -> PendingView {
        match *self {
            Pending::LoadedList { sent_at } => PendingView::LoadedList { sent_at },
            Pending::Resume { thread_id, session, sent_at } => PendingView::Resume {
                thread_id: thread_id@,
                session: session@,
                sent_at,
            },
        }
    }
}

impl PendingView {
    /// When the request was sent.
    pub open spec fn sent(self) -> u64 {
        match self {
            PendingView::LoadedList { sent_at } => sent_at,
            PendingView::Resume { thread_id, session, sent_at } => sent_at,
        }
    }

    /// The session whose resume this is.
    pub open spec fn resumes(self) -> Option<Seq<char>> {
        match self {
            PendingView::LoadedList { sent_at } => None,
            PendingView::Resume { thread_id, session, sent_at } => Some(session),
        }
    }
}

impl Pending {
    /// When the request was sent.
    pub fn sent_at(&self) -> (r: u64)
        ensures
            r == self@.sent(),
    {
        match self {
            Pending::LoadedList { sent_at } => *sent_at,
            Pending::Resume { thread_id: _, session: _, sent_at } => *sent_at,
        }
    }
}

/// Awaited requests, by their characters.
pub open spec fn pending_view(m: Map<i64, Pending>) -> Map<i64, PendingView> {
    m.map_values(|p: Pending| p@)
}

/// Followed threads, by their characters.
pub open spec fn resumed_view(m: Map<Seq<char>, ResumedSession>) -> Map<Seq<char>, ResumedView> {
    m.map_values(|r: ResumedSession| r@)
}

/// Whether a resume of `session` is awaited.
pub open spec fn in_flight(pending: Map<i64, PendingView>, session: Seq<char>) -> bool {
    exists|id: i64| #[trigger]
        pending.contains_key(id) && pending[id].resumes() == Some(session)
}

/// Whether a resume of `session` is awaited. Read off the awaited requests, so that
/// it cannot disagree with their expiry.
pub fn resume_in_flight(session: &str, pending: &AssocMap<i64, Pending>) -> (r: bool)
    requires
        pending.wf(),
    ensures
        r == in_flight(pending_view(pending@), session@),
{
    proof {
        pending.lemma_list();
    }
    let ghost view = pending_view(pending@);
    let mut i: usize = 0;
    while i < pending.len()
        invariant
            i <= pending.list().len(),
            pending.wf(),
            view == pending_view(pending@),
            forall|j: int|
                0 <= j < i ==> (#[trigger] pending.list()[j]).1@.resumes() != Some(session@),
            forall|j: int|
                0 <= j < pending.list().len() ==> pending@.contains_key(
                    (#[trigger] pending.list()[j]).0.key(),
                ) && pending@[pending.list()[j].0.key()] == pending.list()[j].1,
        decreases pending.list().len() - i,
    {
        let (id, p) = pending.entry(i);
        match p {
            Pending::Resume { thread_id: _, session: s, sent_at: _ } => {
                if same_text(s.as_str(), session) {
                    proof {
                        assert(pending@.contains_key(pending.list()[i as int].0.key()));
                        assert(view.contains_key(*id));
                    }
                    return true;
                }
            },
            _ => {},
        }
        i += 1;
    }
    proof {
        if in_flight(view, session@) {
            let id = choose|id: i64| #[trigger]
                view.contains_key(id) && view[id].resumes() == Some(session@);
            assert(pending@.contains_key(id));
            let j = choose|j: int|
                0 <= j < pending.list().len() && (#[trigger] pending.list()[j]).0.key() == id;
            assert(pending.list()[j].1@.resumes() != Some(session@));
        }
    }
    false
}

/// Whether a session's thread is to be looked for now.
pub open spec fn is_due(
    session: Seq<char>,
    state: ResolveState,
    pending: Map<i64, PendingView>,
    now: u64,
) -> bool {
    !state.negative && state.next_try <= now && !in_flight(pending, session)
}

/// Whether a session's thread is to be looked for now: it was not given up, its
/// time has come, and no resume of it is awaited.
pub fn resolution_due(
    session: &str,
    state: &ResolveState,
    pending: &AssocMap<i64, Pending>,
    now: u64,
) -> (r: bool)
    requires
        pending.wf(),
    ensures
        r == is_due(session@, *state, pending_view(pending@), now),
{
    !state.negative && state.next_try <= now && !resume_in_flight(session, pending)
}

/// Whether a loaded thread is to be resumed: its session was mentioned, it is not
/// followed yet, and no resume of it is awaited.
pub fn resume_wanted(
    session: &str,
    thread_id: &str,
    resolve: &AssocMap<String, ResolveState>,
    resumed: &AssocMap<String, ResumedSession>,
    pending: &AssocMap<i64, Pending>,
) -> (r: bool)
    requires
        resolve.wf(),
        resumed.wf(),
        pending.wf(),
    ensures
        r == (resolve@.contains_key(session@) && !resumed@.contains_key(thread_id@) && !in_flight(
            pending_view(pending@),
            session@,
        )),
{
    resolve.contains(&session.to_owned()) && !resumed.contains(&thread_id.to_owned())
        && !resume_in_flight(session, pending)
}

/// Why a connection is to be left, where it is: streaming is off or Codex gone, or
/// the connected endpoint is no longer the configured one.
pub open spec fn detach_reason(
    stream_enabled: bool,
    codex_present: bool,
    connected: Option<Seq<char>>,
    configured: Option<Seq<char>>,
) -> Option<Detach> {
    if !stream_enabled || !codex_present {
        Some(Detach::Disabled)
    } else if connected is Some && configured != connected {
        Some(Detach::Reconfigure)
    } else {
        None
    }
}

/// Decides whether to leave a connection after the configuration was read again.
pub fn should_detach(
    stream_enabled: bool,
    codex_present: bool,
    connected: Option<&str>,
    configured: Option<&str>,
) -> (r: Option<Detach>)
    ensures
        r == detach_reason(
            stream_enabled,
            codex_present,
            crate::text::str_opt(connected),
            crate::text::str_opt(configured),
        ),
{
    if !stream_enabled || !codex_present {
        Some(Detach::Disabled)
    } else if connected.is_some() && !crate::text::same_text_opt(configured, connected) {
        Some(Detach::Reconfigure)
    } else {
        None
    }
}

/// What a reply led to.
#[derive(Debug, PartialEq, Eq)]
pub enum Reply {
    /// No such request is awaited.
    Unknown,
    /// The list failed: everything stays as it is until the next one.
    ListFailed,
    /// The threads that are gone, and the resume requests to send.
    Listed { evicted: Vec<String>, resumes: Vec<String> },
    /// A thread is followed from now on, under `session`.
    Attached { thread_id: String, session: String, reported: Option<String> },
    /// The resume was refused; it will be tried again.
    Refused { session: String },
}

/// What a frame led to.
#[derive(Debug, PartialEq, Eq)]
pub enum Step {
    Nothing,
    Reply(Reply),
    /// Narration to hand on.
    Batches(Vec<(String, StreamBatch)>),
    /// The connection has run out of request numbers and is to be opened anew.
    Exhausted,
}

/// The state of one attached connection.
pub struct Attached {
    pending: AssocMap<i64, Pending>,
    resumed: AssocMap<String, ResumedSession>,
    resolve: AssocMap<String, ResolveState>,
    coalescer: Coalescer,
    epoch: u64,
    last_cfg: u64,
    last_list: Option<u64>,
    list_in_flight: bool,
    next_id: i64,
}

/// An [`Attached`] as mathematical values.
#[verifier::ext_equal]
pub struct AttachedView {
    /// The awaited requests, by number.
    pub pending: Map<i64, PendingView>,
    /// The followed threads.
    pub resumed: Map<Seq<char>, ResumedView>,
    /// The followed threads, in the order in which they came.
    pub threads: Seq<Seq<char>>,
    /// The sessions whose thread is looked for.
    pub resolve: Map<Seq<char>, ResolveState>,
    /// The buffers of streamed text.
    pub bufs: Map<(Seq<char>, Seq<char>), BufView>,
    /// The buffered items, in the order in which they came.
    pub items: Seq<(Seq<char>, Seq<char>)>,
    /// The registry's epoch that was last looked at.
    pub epoch: u64,
    /// When the configuration was last read.
    pub last_cfg: u64,
    /// When the loaded threads were last asked for.
    pub last_list: Option<u64>,
    /// Whether a list is awaited.
    pub list_in_flight: bool,
    /// The number of the last request.
    pub next_id: i64,
}

/// The parts of `m` whose key is not in `gone`.
pub open spec fn without<V>(m: Map<Seq<char>, V>, gone: Seq<Seq<char>>) -> Map<Seq<char>, V> {
    Map::new(
        |k: Seq<char>| m.contains_key(k) && !gone.contains(k),
        |k: Seq<char>| m[k],
    )
}

/// The buffers of sessions that are not in `gone`.
pub open spec fn without_bufs(
    m: Map<(Seq<char>, Seq<char>), BufView>,
    gone: Seq<Seq<char>>,
) -> Map<(Seq<char>, Seq<char>), BufView> {
    Map::new(
        |k: (Seq<char>, Seq<char>)| m.contains_key(k) && !gone.contains(k.0),
        |k: (Seq<char>, Seq<char>)| m[k],
    )
}

/// The items of sessions that are not in `gone`, in order.
pub open spec fn items_not_in(
    items: Seq<(Seq<char>, Seq<char>)>,
    gone: Seq<Seq<char>>,
) -> Seq<(Seq<char>, Seq<char>)> {
    items.filter(|k: (Seq<char>, Seq<char>)| !gone.contains(k.0))
}

/// The state without the threads in `gone`: neither they nor their sessions are
/// followed or looked for.
pub open spec fn forgotten(v: AttachedView, gone: Seq<Seq<char>>) -> AttachedView {
    AttachedView {
        resumed: without(v.resumed, gone),
        threads: not_in(v.threads, gone),
        resolve: without(v.resolve, gone),
        ..v
    }
}

/// The state without the threads in `gone`, and without the text buffered for them.
pub open spec fn dropped(v: AttachedView, gone: Seq<Seq<char>>) -> AttachedView {
    AttachedView {
        bufs: without_bufs(v.bufs, gone),
        items: items_not_in(v.items, gone),
        ..forgotten(v, gone)
    }
}

/// Whether a request has waited `timeout` for its reply at `now`.
pub open spec fn is_expired(p: PendingView, now: u64, timeout: u64) -> bool {
    now.saturating_sub(p.sent()) >= timeout
}

/// The awaited requests that have not expired.
pub open spec fn unexpired(
    pending: Map<i64, PendingView>,
    now: u64,
    timeout: u64,
) -> Map<i64, PendingView> {
    Map::new(
        |id: i64| pending.contains_key(id) && !is_expired(pending[id], now, timeout),
        |id: i64| pending[id],
    )
}

/// Whether a resume of `session` has expired.
pub open spec fn resume_expired(
    pending: Map<i64, PendingView>,
    session: Seq<char>,
    now: u64,
    timeout: u64,
) -> bool {
    exists|id: i64| #[trigger]
        pending.contains_key(id) && pending[id].resumes() == Some(session) && is_expired(
            pending[id],
            now,
            timeout,
        )
}

/// Whether a list is awaited.
pub open spec fn lists(pending: Map<i64, PendingView>) -> bool {
    exists|id: i64| #[trigger] pending.contains_key(id) && pending[id] is LoadedList
}

/// The search states after expiry: those whose resume expired wait for their retry.
pub open spec fn after_expiry(
    v: AttachedView,
    now: u64,
    tun: Tunables,
) -> Map<Seq<char>, ResolveState> {
    Map::new(
        |s: Seq<char>| v.resolve.contains_key(s),
        |s: Seq<char>|
            if resume_expired(v.pending, s, now, tun.request_timeout) {
                ResolveState {
                    next_try: now.saturating_add(tun.resolve_retry),
                    ..v.resolve[s]
                }
            } else {
                v.resolve[s]
            },
    )
}

/// The followed threads that have been silent for longer than `ttl`.
pub open spec fn idle_threads(v: AttachedView, now: u64, ttl: u64) -> Seq<Seq<char>> {
    v.threads.filter(
        |t: Seq<char>| now.saturating_sub(v.resumed[t].last_activity) > ttl,
    )
}

/// The followed threads that are not loaded any more.
pub open spec fn unloaded_threads(v: AttachedView, loaded: Seq<Seq<char>>) -> Seq<Seq<char>> {
    v.threads.filter(|t: Seq<char>| !loaded.contains(t))
}

/// A session that is about to be looked for.
pub open spec fn to_resolve(now: u64) -> ResolveState {
    ResolveState { tries: 0, next_try: now, negative: false }
}

/// The search states once the registry's sessions were looked at: a session that is
/// neither followed nor looked for joins, and one that was given up starts over.
pub open spec fn rearmed(
    v: AttachedView,
    sessions: Seq<Seq<char>>,
    now: u64,
) -> Map<Seq<char>, ResolveState> {
    Map::new(
        |s: Seq<char>|
            v.resolve.contains_key(s) || (sessions.contains(s) && !v.resumed.contains_key(s)),
        |s: Seq<char>|
            if sessions.contains(s) && !v.resumed.contains_key(s) && (!v.resolve.contains_key(s)
                || v.resolve[s].negative) {
                to_resolve(now)
            } else {
                v.resolve[s]
            },
    )
}

/// Whether the loaded threads are to be asked for: none such request is awaited, and
/// a session is due or the last list is old.
pub open spec fn list_due(v: AttachedView, now: u64, tun: Tunables) -> bool {
    &&& !v.list_in_flight
    &&& {
        ||| exists|s: Seq<char>| #[trigger]
            v.resolve.contains_key(s) && is_due(s, v.resolve[s], v.pending, now)
        ||| v.last_list is None
        ||| now.saturating_sub(v.last_list->0) >= tun.relist
    }
}

/// The threads to resume, in the order in which the list has them: loaded, looked
/// for, not followed, and without a resume awaited. Each once.
pub open spec fn resumes(
    loaded: Seq<Seq<char>>,
    resolve: Map<Seq<char>, ResolveState>,
    resumed: Map<Seq<char>, ResumedView>,
    pending: Map<i64, PendingView>,
) -> Seq<Seq<char>>
    decreases loaded.len(),
{
    if loaded.len() == 0 {
        Seq::empty()
    } else {
        let r = resumes(loaded.drop_last(), resolve, resumed, pending);
        let t = loaded.last();
        if resolve.contains_key(t) && !resumed.contains_key(t) && !in_flight(pending, t)
            && !r.contains(t) {
            r.push(t)
        } else {
            r
        }
    }
}

/// The awaited requests once `threads` were resumed, numbered from `id + 1` on.
pub open spec fn with_resumes(
    pending: Map<i64, PendingView>,
    id: i64,
    threads: Seq<Seq<char>>,
    now: u64,
) -> Map<i64, PendingView>
    decreases threads.len(),
{
    if threads.len() == 0 {
        pending
    } else {
        with_resumes(pending, id, threads.drop_last(), now).insert(
            (id + threads.len()) as i64,
            PendingView::Resume {
                thread_id: threads.last(),
                session: threads.last(),
                sent_at: now,
            },
        )
    }
}

/// A search that came up empty once more: given up after enough tries, else put off.
pub open spec fn missed(st: ResolveState, now: u64, tun: Tunables) -> ResolveState {
    let tries = st.tries.saturating_add(1);
    if tries >= tun.resolve_tries {
        ResolveState { tries, negative: true, ..st }
    } else {
        ResolveState { tries, next_try: now.saturating_add(tun.resolve_retry), ..st }
    }
}

/// The search states after a list: a session that has no loaded thread, was not
/// given up and has no resume awaited has missed once more.
pub open spec fn after_list(
    resolve: Map<Seq<char>, ResolveState>,
    loaded: Seq<Seq<char>>,
    pending: Map<i64, PendingView>,
    now: u64,
    tun: Tunables,
) -> Map<Seq<char>, ResolveState> {
    Map::new(
        |s: Seq<char>| resolve.contains_key(s),
        |s: Seq<char>|
            if !loaded.contains(s) && !resolve[s].negative && !in_flight(pending, s) {
                missed(resolve[s], now, tun)
            } else {
                resolve[s]
            },
    )
}

/// The state after a list of the loaded threads: those that are not loaded any more
/// are dropped, those that are looked for are resumed, and a session that found no
/// thread has missed once more.
pub open spec fn listed(
    v: AttachedView,
    loaded: Seq<Seq<char>>,
    now: u64,
    tun: Tunables,
) -> AttachedView {
    let left = dropped(v, unloaded_threads(v, loaded));
    let again = resumes(loaded, left.resolve, left.resumed, v.pending);
    let pending = with_resumes(v.pending, v.next_id, again, now);
    AttachedView {
        pending,
        resolve: after_list(left.resolve, loaded, pending, now, tun),
        next_id: (v.next_id + again.len()) as i64,
        ..left
    }
}

/// The state once the loaded threads were asked for.
pub open spec fn asked(v: AttachedView, now: u64) -> AttachedView {
    AttachedView {
        pending: v.pending.insert(
            (v.next_id + 1) as i64,
            PendingView::LoadedList { sent_at: now },
        ),
        list_in_flight: true,
        last_list: Some(now),
        next_id: (v.next_id + 1) as i64,
        ..v
    }
}

/// The threads that a list makes the connection resume.
pub open spec fn list_resumes(v: AttachedView, loaded: Seq<Seq<char>>) -> Seq<Seq<char>> {
    let left = dropped(v, unloaded_threads(v, loaded));
    resumes(loaded, left.resolve, left.resumed, v.pending)
}

/// The state once the request `id` is no longer awaited.
pub open spec fn answered(v: AttachedView, id: i64) -> AttachedView {
    AttachedView {
        pending: v.pending.remove(id),
        list_in_flight: v.list_in_flight && !(v.pending[id] is LoadedList),
        ..v
    }
}

/// The state once a thread is followed.
pub open spec fn attached(
    v: AttachedView,
    thread: Seq<char>,
    session: Seq<char>,
    now: u64,
) -> AttachedView {
    AttachedView {
        resolve: v.resolve.remove(session),
        resumed: v.resumed.insert(thread, ResumedView { session, last_activity: now }),
        threads: if v.resumed.contains_key(thread) {
            v.threads
        } else {
            v.threads.push(thread)
        },
        ..v
    }
}

/// The state once a session's search was put off.
pub open spec fn put_off(
    v: AttachedView,
    session: Seq<char>,
    now: u64,
    tun: Tunables,
) -> AttachedView {
    if v.resolve.contains_key(session) {
        AttachedView {
            resolve: v.resolve.insert(
                session,
                ResolveState {
                    next_try: now.saturating_add(tun.resolve_retry),
                    ..v.resolve[session]
                },
            ),
            ..v
        }
    } else {
        v
    }
}

/// The state once something was heard of a followed thread.
pub open spec fn alive(v: AttachedView, thread: Seq<char>, now: u64) -> AttachedView {
    AttachedView {
        resumed: v.resumed.insert(
            thread,
            ResumedView { last_activity: now, ..v.resumed[thread] },
        ),
        ..v
    }
}

/// What a reply `r` to the request `id`, and the state `w` after it, have to be: an
/// awaited list that failed changes nothing else, one that came is acted on, and a
/// resume makes its thread followed or is put off.
pub open spec fn replied(
    v: AttachedView,
    id: i64,
    result: Option<JsonView>,
    now: u64,
    tun: Tunables,
    r: Reply,
    w: AttachedView,
) -> bool {
    if !v.pending.contains_key(id) {
        r is Unknown && w == v
    } else {
        match v.pending[id] {
            PendingView::LoadedList { sent_at } => match result {
                None => r is ListFailed && w == answered(v, id),
                Some(j) => {
                    &&& w == listed(answered(v, id), loaded_ids(j), now, tun)
                    &&& r matches Reply::Listed { evicted, resumes } && texts(evicted@)
                        == unloaded_threads(v, loaded_ids(j)) && are_resumes(
                        resumes@,
                        v.next_id,
                        list_resumes(answered(v, id), loaded_ids(j)),
                    )
                },
            },
            PendingView::Resume { thread_id: t, session: s, sent_at } => match result {
                Some(j) => {
                    &&& w == attached(answered(v, id), t, s, now)
                    &&& r matches Reply::Attached { thread_id, session, reported } && thread_id@
                        == t && session@ == s && text_opt(reported) == reported_session(j)
                },
                None => {
                    &&& w == put_off(answered(v, id), s, now, tun)
                    &&& r matches Reply::Refused { session } && session@ == s
                },
            },
        }
    }
}

/// A piece of a followed thread's message: the state and the text handed on.
pub open spec fn streamed(
    v: AttachedView,
    thread: Seq<char>,
    item: Seq<char>,
    delta: Seq<char>,
    now: u64,
) -> (AttachedView, Seq<(Seq<char>, BatchView)>) {
    if !v.resumed.contains_key(thread) {
        (v, Seq::empty())
    } else {
        let k = (thread, item);
        let b = if v.bufs.contains_key(k) {
            v.bufs[k]
        } else {
            fresh_buf(now)
        };
        (
            AttachedView {
                bufs: v.bufs.insert(k, appended(b, delta, now)),
                items: if v.bufs.contains_key(k) {
                    v.items
                } else {
                    v.items.push(k)
                },
                ..alive(v, thread, now)
            },
            match ready(b, delta) {
                Some(text) => seq![(thread, delta_batch(item, b.seq, text))],
                None => Seq::empty(),
            },
        )
    }
}

/// The end of a followed thread's message: the state and the text handed on.
pub open spec fn completed(
    v: AttachedView,
    thread: Seq<char>,
    item: Seq<char>,
    text: Seq<char>,
    now: u64,
) -> (AttachedView, Seq<(Seq<char>, BatchView)>) {
    if !v.resumed.contains_key(thread) {
        (v, Seq::empty())
    } else {
        (
            AttachedView {
                bufs: v.bufs.remove((thread, item)),
                items: filter_out(v.items, (thread, item)),
                ..alive(v, thread, now)
            },
            seq![
                (
                    thread,
                    BatchView {
                        key: item,
                        payload: PayloadView::Cumulative { text },
                        is_final: true,
                    },
                ),
            ],
        )
    }
}

/// The end of a followed thread's turn: the state and the text handed on.
pub open spec fn turn_ended(v: AttachedView, thread: Seq<char>, now: u64) -> (
    AttachedView,
    Seq<(Seq<char>, BatchView)>,
) {
    if !v.resumed.contains_key(thread) {
        (v, Seq::empty())
    } else {
        (
            AttachedView {
                bufs: swept(v.bufs, now, 0, Some(thread)),
                ..alive(v, thread, now)
            },
            swept_batches(v.items, v.bufs, now, 0, Some(thread)),
        )
    }
}

/// Whether a step `r` hands on these batches, and the state after it is this one.
pub open spec fn hands_on(
    r: Step,
    w: AttachedView,
    want: (AttachedView, Seq<(Seq<char>, BatchView)>),
) -> bool {
    &&& w == want.0
    &&& r matches Step::Batches(b) && batch_views(b@) == want.1
}

/// What a frame has to lead to.
pub open spec fn stepped(
    v: AttachedView,
    incoming: IncomingView,
    now: u64,
    tun: Tunables,
    r: Step,
    w: AttachedView,
) -> bool {
    match incoming {
        IncomingView::Response { id, result } => if result matches Some(j) && !v.ids_left(
            loaded_ids(j).len() as int,
        ) {
            r is Exhausted && w == v
        } else {
            r matches Step::Reply(reply) && replied(v, id, result, now, tun, reply, w)
        },
        IncomingView::AgentMessageDelta { thread_id, item_id, delta } => hands_on(
            r,
            w,
            streamed(v, thread_id, item_id, delta, now),
        ),
        IncomingView::AgentMessageCompleted { thread_id, item_id, text } => hands_on(
            r,
            w,
            completed(v, thread_id, item_id, text, now),
        ),
        IncomingView::TurnCompleted { thread_id } => hands_on(r, w, turn_ended(v, thread_id, now)),
        IncomingView::Other => r is Nothing && w == v,
    }
}

/// The batch that was handed on, if any, as a sequence.
pub open spec fn one_or_none(r: Option<(String, StreamBatch)>) -> Seq<(Seq<char>, BatchView)> {
    match r {
        Some(b) => seq![batch_view(b)],
        None => Seq::empty(),
    }
}

/// Whether the requests `r` are the resumes of `threads`, numbered from `id + 1` on.
pub open spec fn are_resumes(r: Seq<String>, id: i64, threads: Seq<Seq<char>>) -> bool {
    &&& r.len() == threads.len()
    &&& forall|i: int|
        0 <= i < r.len() ==> (#[trigger] r[i])@ == thread_request(
            "thread/resume"@,
            (id + i + 1) as i64,
            threads[i],
        )
}

/// Whether the requests `r` are the unsubscriptions of `threads`, numbered from
/// `id + 1` on.
pub open spec fn are_unsubscribes(r: Seq<String>, id: i64, threads: Seq<Seq<char>>) -> bool {
    &&& r.len() == threads.len()
    &&& forall|i: int|
        0 <= i < r.len() ==> (#[trigger] r[i])@ == thread_request(
            "thread/unsubscribe"@,
            (id + i + 1) as i64,
            threads[i],
        )
}

impl View for Attached {
    type V = AttachedView;

    closed spec fn view(&self) -> AttachedView {
        AttachedView {
            pending: pending_view(self.pending@),
            resumed: resumed_view(self.resumed@),
            threads: self.resumed.keys(),
            resolve: self.resolve@,
            bufs: self.coalescer.bufs(),
            items: self.coalescer.order(),
            epoch: self.epoch,
            last_cfg: self.last_cfg,
            last_list: self.last_list,
            list_in_flight: self.list_in_flight,
            next_id: self.next_id,
        }
    }
}

impl AttachedView {
    /// What holds of every connection: awaited requests have numbers that were given
    /// out, at most one of them is a list and at most one a resume of any session,
    /// and a thread is followed under its own session.
    pub open spec fn inv(self) -> bool {
        &&& forall|id: i64| #[trigger] self.pending.contains_key(id) ==> 0 < id <= self.next_id
        &&& 0 <= self.next_id
        &&& self.list_in_flight == lists(self.pending)
        &&& forall|a: i64, b: i64|
            self.pending.contains_key(a) && self.pending.contains_key(b) && (
            #[trigger] self.pending[a]) is LoadedList && (#[trigger] self.pending[b]) is LoadedList
                ==> a == b
        &&& forall|a: i64, b: i64|
            self.pending.contains_key(a) && self.pending.contains_key(b) && (
            #[trigger] self.pending[a]).resumes() is Some && (
            #[trigger] self.pending[b]).resumes() == self.pending[a].resumes() ==> a == b
        &&& forall|id: i64| #[trigger]
            self.pending.contains_key(id) ==> (self.pending[id] matches PendingView::Resume {
                thread_id,
                session,
                sent_at,
            } ==> thread_id == session)
        &&& forall|t: Seq<char>| #[trigger]
            self.resumed.contains_key(t) ==> self.resumed[t].session == t
        &&& self.threads.no_duplicates()
        &&& forall|t: Seq<char>| #[trigger]
            self.resumed.contains_key(t) <==> self.threads.contains(t)
    }

    /// Whether `n` more requests can be numbered.
    pub open spec fn ids_left(self, n: int) -> bool {
        self.next_id + n <= i64::MAX
    }
}

impl Attached {
    /// The representation is sound, and the connection's invariant holds.
    pub closed spec fn wf(&self) -> bool {
        &&& self.pending.wf()
        &&& self.resumed.wf()
        &&& self.resolve.wf()
        &&& self.coalescer.wf()
        &&& self@.inv()
    }

    /// What holds of the view of a sound state.
    pub proof fn lemma_inv(&self)
        requires
            self.wf(),
        ensures
            self@.inv(),
    {
    }

    /// A connection on which nothing has happened yet: the registry's sessions are
    /// to be looked for at once.
    pub fn new(sessions: &Vec<String>, epoch: u64, now: u64) -> (r: Self)
        ensures
            r.wf(),
            r@ == (AttachedView {
                pending: Map::empty(),
                resumed: Map::empty(),
                threads: Seq::empty(),
                resolve: Map::new(
                    |s: Seq<char>| texts(sessions@).contains(s),
                    |s: Seq<char>| to_resolve(now),
                ),
                bufs: Map::empty(),
                items: Seq::empty(),
                epoch,
                last_cfg: now,
                last_list: None,
                list_in_flight: false,
                next_id: INITIALIZE_ID,
            }),
    {
        let mut resolve: AssocMap<String, ResolveState> = AssocMap::new();
        let mut i: usize = 0;
        while i < sessions.len()
            invariant
                i <= sessions.len(),
                resolve.wf(),
                forall|s: Seq<char>| #[trigger]
                    resolve@.contains_key(s) <==> exists|j: int|
                        0 <= j < i && (#[trigger] sessions@[j])@ == s,
                forall|s: Seq<char>| #[trigger]
                    resolve@.contains_key(s) ==> resolve@[s] == to_resolve(now),
            decreases sessions.len() - i,
        {
            let ghost before = resolve@;
            resolve.insert(
                sessions[i].as_str().to_owned(),
                ResolveState { tries: 0, next_try: now, negative: false },
            );
            i += 1;
            proof {
                assert forall|s: Seq<char>| #[trigger] resolve@.contains_key(s) <==> exists|j: int|
                    0 <= j < i && (#[trigger] sessions@[j])@ == s by {
                    if resolve@.contains_key(s) {
                        if s == sessions@[i - 1]@ {
                            assert(sessions@[i - 1]@ == s);
                        } else {
                            assert(before.contains_key(s));
                        }
                    }
                    if exists|j: int| 0 <= j < i && (#[trigger] sessions@[j])@ == s {
                        let j = choose|j: int| 0 <= j < i && (#[trigger] sessions@[j])@ == s;
                        if j < i - 1 {
                            assert(before.contains_key(s));
                        }
                    }
                }
            }
        }
        let r = Attached {
            pending: AssocMap::new(),
            resumed: AssocMap::new(),
            resolve,
            coalescer: Coalescer::new(),
            epoch,
            last_cfg: now,
            last_list: None,
            list_in_flight: false,
            next_id: INITIALIZE_ID,
        };
        proof {
            let want = Map::new(
                |s: Seq<char>| texts(sessions@).contains(s),
                |s: Seq<char>| to_resolve(now),
            );
            assert forall|s: Seq<char>| #[trigger] r@.resolve.contains_key(s)
                == want.contains_key(s) by {
                if r@.resolve.contains_key(s) {
                    let j = choose|j: int|
                        0 <= j < sessions@.len() && (#[trigger] sessions@[j])@ == s;
                    assert(texts(sessions@)[j] == s);
                }
                if texts(sessions@).contains(s) {
                    let j = choose|j: int|
                        0 <= j < texts(sessions@).len() && texts(sessions@)[j] == s;
                    assert(sessions@[j]@ == s);
                }
            }
            assert(r@.resolve =~= want);
            assert(r@.pending =~= Map::empty());
            assert(r@.resumed =~= Map::empty());
            assert(r@.threads =~= Seq::empty());
            assert(r@.items =~= Seq::empty());
        }
        r
    }

    /// The number of the last request.
    pub fn last_id(&self) -> (r: i64)
        ensures
            r == self@.next_id,
    {
        self.next_id
    }

    /// The sessions that are followed, in the order in which they came.
    pub fn sessions(&self) -> (r: Vec<String>)
        requires
            self.wf(),
        ensures
            texts(r@) == self@.threads,
    {
        let mut out: Vec<String> = Vec::new();
        let mut i: usize = 0;
        assert(texts(out@) =~= self@.threads.take(0));
        while i < self.resumed.len()
            invariant
                i <= self@.threads.len(),
                self.wf(),
                texts(out@) == self@.threads.take(i as int),
            decreases self@.threads.len() - i,
        {
            let (t, r) = self.resumed.entry(i);
            proof {
                self.resumed.lemma_list();
                assert(self.resumed@.contains_key(self.resumed.list()[i as int].0.key()));
                assert(self@.resumed.contains_key(t@));
                assert(self@.threads[i as int] == t@);
            }
            let ghost before = texts(out@);
            out.push(r.session.as_str().to_owned());
            proof {
                assert(texts(out@) =~= before.push(t@));
                assert(self@.threads.take(i + 1) =~= self@.threads.take(i as int).push(t@));
            }
            i += 1;
        }
        assert(self@.threads.take(i as int) =~= self@.threads);
        out
    }

    /// Gives up on requests that have waited too long. A list that expired can be
    /// asked for again, and a session whose resume expired waits for its retry.
    pub fn expire(&mut self, now: u64, tun: &Tunables)
        requires
            old(self).wf(),
        ensures
            final(self).wf(),
            final(self)@ == (AttachedView {
                pending: unexpired(old(self)@.pending, now, tun.request_timeout),
                resolve: after_expiry(old(self)@, now, *tun),
                list_in_flight: lists(unexpired(old(self)@.pending, now, tun.request_timeout)),
                ..old(self)@
            }),
    {
        let ghost v = self@;
        let ghost kept = unexpired(v.pending, now, tun.request_timeout);
        let mut i: usize = 0;
        proof {
            self.pending.lemma_list();
            assert(self@.resolve =~= v.resolve);
        }
        while i < self.pending.len()
            invariant
                i <= self.pending.list().len(),
                v == old(self)@,
                v.inv(),
                kept == unexpired(v.pending, now, tun.request_timeout),
                self.pending.wf(),
                self.resumed.wf(),
                self.resolve.wf(),
                self.coalescer.wf(),
                self@ == (AttachedView {
                    pending: self@.pending,
                    resolve: self@.resolve,
                    list_in_flight: self@.list_in_flight,
                    ..v
                }),
                forall|id: i64| #[trigger]
                    self@.pending.contains_key(id) ==> v.pending.contains_key(id)
                        && self@.pending[id] == v.pending[id],
                forall|id: i64| #[trigger]
                    kept.contains_key(id) ==> self@.pending.contains_key(id),
                forall|j: int|
                    0 <= j < i ==> !is_expired(
                        (#[trigger] self.pending.list()[j]).1@,
                        now,
                        tun.request_timeout,
                    ),
                self@.list_in_flight == lists(self@.pending),
                forall|s: Seq<char>| #[trigger]
                    self@.resolve.contains_key(s) <==> v.resolve.contains_key(s),
                forall|s: Seq<char>| #[trigger]
                    self@.resolve.contains_key(s) ==> self@.resolve[s] == (if gone_resume(
                        v.pending,
                        self@.pending,
                        s,
                    ) {
                        ResolveState {
                            next_try: now.saturating_add(tun.resolve_retry),
                            ..v.resolve[s]
                        }
                    } else {
                        v.resolve[s]
                    }),
                forall|id: i64| #[trigger]
                    v.pending.contains_key(id) && !self@.pending.contains_key(id) ==> is_expired(
                        v.pending[id],
                        now,
                        tun.request_timeout,
                    ),
            decreases self.pending.list().len() - i,
        {
            let (_, p) = self.pending.entry(i);
            let expired = now.saturating_sub(p.sent_at()) >= tun.request_timeout;
            if expired {
                let ghost before = self@;
                let ghost list = self.pending.list();
                proof {
                    self.pending.lemma_list();
                    assert(self.pending@.contains_key(list[i as int].0.key()));
                }
                let (id, gone) = self.pending.remove_at(i);
                proof {
                    assert(self@.pending =~= before.pending.remove(id));
                    assert(before.pending.contains_key(id));
                    assert(before.pending[id] == gone@);
                    assert forall|j: int| 0 <= j < i implies !is_expired(
                        (#[trigger] self.pending.list()[j]).1@,
                        now,
                        tun.request_timeout,
                    ) by {
                        assert(self.pending.list()[j] == list[j]);
                    }
                }
                match gone {
                    Pending::LoadedList { sent_at: _ } => {
                        self.list_in_flight = false;
                        proof {
                            assert forall|s: Seq<char>|
                                gone_resume(v.pending, self@.pending, s) == gone_resume(
                                    v.pending,
                                    before.pending,
                                    s,
                                ) by {
                                lemma_gone_resume(v.pending, before.pending, id, s);
                            }
                        }
                    },
                    Pending::Resume { thread_id: _, session, sent_at: _ } => {
                        let ghost s0 = session@;
                        match self.resolve.get(&session) {
                            Some(st) => {
                                let next = ResolveState {
                                    tries: st.tries,
                                    next_try: now.saturating_add(tun.resolve_retry),
                                    negative: st.negative,
                                };
                                self.resolve.insert(session, next);
                            },
                            None => {},
                        }
                        proof {
                            assert forall|s: Seq<char>|
                                gone_resume(v.pending, self@.pending, s) == (s == s0
                                    || gone_resume(v.pending, before.pending, s)) by {
                                lemma_gone_resume(v.pending, before.pending, id, s);
                            }
                            assert(lists(self@.pending) == lists(before.pending)) by {
                                if lists(before.pending) {
                                    let x = choose|x: i64| #[trigger]
                                        before.pending.contains_key(x)
                                            && before.pending[x] is LoadedList;
                                    assert(self@.pending.contains_key(x));
                                }
                                if lists(self@.pending) {
                                    let x = choose|x: i64| #[trigger]
                                        self@.pending.contains_key(x)
                                            && self@.pending[x] is LoadedList;
                                    assert(before.pending.contains_key(x));
                                }
                            }
                        }
                    },
                }
            } else {
                i += 1;
            }
        }
        proof {
            self.pending.lemma_list();
            assert forall|id: i64| #[trigger] self@.pending.contains_key(id) implies kept.contains_key(
                id,
            ) by {
                assert(self.pending@.contains_key(id));
                let j = choose|j: int|
                    0 <= j < self.pending.list().len() && (#[trigger] self.pending.list()[j]).0.key()
                        == id;
                assert(!is_expired(self.pending.list()[j].1@, now, tun.request_timeout));
            }
            assert(self@.pending =~= kept);
            assert forall|s: Seq<char>| gone_resume(v.pending, self@.pending, s) == resume_expired(
                v.pending,
                s,
                now,
                tun.request_timeout,
            ) by {
                if resume_expired(v.pending, s, now, tun.request_timeout) {
                    let id = choose|id: i64| #[trigger]
                        v.pending.contains_key(id) && v.pending[id].resumes() == Some(s)
                            && is_expired(v.pending[id], now, tun.request_timeout);
                    assert(!kept.contains_key(id));
                }
                if gone_resume(v.pending, self@.pending, s) {
                    let id = choose|id: i64| #[trigger]
                        v.pending.contains_key(id) && v.pending[id].resumes() == Some(s)
                            && !self@.pending.contains_key(id);
                    assert(is_expired(v.pending[id], now, tun.request_timeout));
                }
            }
            assert(self@.resolve =~= after_expiry(v, now, *tun));
        }
    }

    /// Forgets the threads in `gone`; with `drop_text`, the text buffered for them too.
    fn forget(&mut self, gone: &Vec<String>, drop_text: bool)
        requires
            old(self).wf(),
        ensures
            final(self).wf(),
            final(self)@ == (if drop_text {
                dropped(old(self)@, texts(gone@))
            } else {
                forgotten(old(self)@, texts(gone@))
            }),
    {
        let ghost v = self@;
        let ghost g = texts(gone@);
        let mut i: usize = 0;
        proof {
            lemma_forget_none(v, g.take(0));
        }
        while i < gone.len()
            invariant
                i <= gone.len(),
                g == texts(gone@),
                v == old(self)@,
                v.inv(),
                self.pending.wf(),
                self.resumed.wf(),
                self.resolve.wf(),
                self.coalescer.wf(),
                self@ == (if drop_text {
                    dropped(v, g.take(i as int))
                } else {
                    forgotten(v, g.take(i as int))
                }),
            decreases gone.len() - i,
        {
            let thread = &gone[i];
            let ghost before = self@;
            proof {
                lemma_forget_step(v, g, i as int);
                assert(g[i as int] == thread@);
            }
            let _ = self.resumed.remove(thread);
            let _ = self.resolve.remove(thread);
            proof {
                assert(self@.resumed =~= before.resumed.remove(thread@));
            }
            if drop_text {
                self.coalescer.drop_session(thread.as_str());
            }
            i += 1;
        }
        proof {
            assert(g.take(i as int) =~= g);
            lemma_forgotten_inv(v, g);
        }
    }

    /// Whether the configuration is to be read again now.
    pub fn refresh_due(&mut self, now: u64, tun: &Tunables) -> (r: bool)
        requires
            old(self).wf(),
        ensures
            final(self).wf(),
            r == (now.saturating_sub(old(self)@.last_cfg) >= tun.cfg_refresh),
            final(self)@ == (AttachedView {
                last_cfg: if r {
                    now
                } else {
                    old(self)@.last_cfg
                },
                ..old(self)@
            }),
    {
        if now.saturating_sub(self.last_cfg) >= tun.cfg_refresh {
            self.last_cfg = now;
            true
        } else {
            false
        }
    }

    /// The unsubscriptions of every followed thread, for an orderly end.
    pub fn stand_down(&mut self) -> (r: Vec<String>)
        requires
            old(self).wf(),
            old(self)@.ids_left(old(self)@.threads.len() as int),
        ensures
            final(self).wf(),
            are_unsubscribes(r@, old(self)@.next_id, old(self)@.threads),
            final(self)@ == (AttachedView {
                next_id: (old(self)@.next_id + old(self)@.threads.len()) as i64,
                ..old(self)@
            }),
    {
        let threads = self.threads();
        self.unsubscribe(&threads)
    }

    /// The followed threads, in the order in which they came.
    fn threads(&self) -> (r: Vec<String>)
        requires
            self.wf(),
        ensures
            texts(r@) == self@.threads,
    {
        let mut out: Vec<String> = Vec::new();
        let mut i: usize = 0;
        assert(texts(out@) =~= self@.threads.take(0));
        while i < self.resumed.len()
            invariant
                i <= self@.threads.len(),
                texts(out@) == self@.threads.take(i as int),
            decreases self@.threads.len() - i,
        {
            let (t, _) = self.resumed.entry(i);
            let ghost before = texts(out@);
            out.push(t.as_str().to_owned());
            proof {
                assert(texts(out@) =~= before.push(t@));
                assert(self@.threads.take(i + 1) =~= self@.threads.take(i as int).push(t@));
            }
            i += 1;
        }
        assert(self@.threads.take(i as int) =~= self@.threads);
        out
    }

    /// The unsubscriptions of some threads.
    fn unsubscribe(&mut self, threads: &Vec<String>) -> (r: Vec<String>)
        requires
            old(self).wf(),
            old(self)@.ids_left(threads@.len() as int),
        ensures
            final(self).wf(),
            are_unsubscribes(r@, old(self)@.next_id, texts(threads@)),
            final(self)@ == (AttachedView {
                next_id: (old(self)@.next_id + threads@.len()) as i64,
                ..old(self)@
            }),
    {
        let ghost v = self@;
        let mut out: Vec<String> = Vec::new();
        let mut i: usize = 0;
        while i < threads.len()
            invariant
                i <= threads.len(),
                out.len() == i,
                v == old(self)@,
                v.inv(),
                self.wf(),
                v.ids_left(threads@.len() as int),
                self@ == (AttachedView { next_id: (v.next_id + i) as i64, ..v }),
                forall|k: int|
                    0 <= k < i ==> (#[trigger] out@[k])@ == thread_request(
                        "thread/unsubscribe"@,
                        (v.next_id + k + 1) as i64,
                        texts(threads@)[k],
                    ),
            decreases threads.len() - i,
        {
            self.next_id = self.next_id + 1;
            proof {
                lemma_numbered_inv(v, i + 1);
            }
            out.push(thread_unsubscribe_request(self.next_id, threads[i].as_str()));
            i += 1;
        }
        out
    }

    /// Stops following the threads that have been silent for too long. Gives their
    /// sessions, and the unsubscriptions to send.
    pub fn evict_idle(&mut self, now: u64, tun: &Tunables) -> (r: (Vec<String>, Vec<String>))
        requires
            old(self).wf(),
            old(self)@.ids_left(old(self)@.threads.len() as int),
        ensures
            final(self).wf(),
            texts(r.0@) == idle_threads(old(self)@, now, tun.idle_ttl),
            are_unsubscribes(r.1@, old(self)@.next_id, texts(r.0@)),
            final(self)@ == (AttachedView {
                next_id: (old(self)@.next_id + r.0@.len()) as i64,
                ..forgotten(old(self)@, idle_threads(old(self)@, now, tun.idle_ttl))
            }),
    {
        let ghost v = self@;
        let ghost idle = |t: Seq<char>|
            now.saturating_sub(v.resumed[t].last_activity) > tun.idle_ttl;
        let mut dead: Vec<String> = Vec::new();
        let mut i: usize = 0;
        proof {
            self.resumed.lemma_list();
            lemma_filter_none(v.threads, idle);
            assert(texts(dead@) =~= v.threads.take(0).filter(idle));
        }
        while i < self.resumed.len()
            invariant
                i <= v.threads.len(),
                v == self@,
                self.wf(),
                idle == (|t: Seq<char>|
                    now.saturating_sub(v.resumed[t].last_activity) > tun.idle_ttl),
                texts(dead@) == v.threads.take(i as int).filter(idle),
                dead@.len() <= i,
                forall|j: int|
                    0 <= j < self.resumed.list().len() ==> self.resumed@.contains_key(
                        (#[trigger] self.resumed.list()[j]).0.key(),
                    ) && self.resumed@[self.resumed.list()[j].0.key()] == self.resumed.list()[j].1,
            decreases v.threads.len() - i,
        {
            let (t, r) = self.resumed.entry(i);
            proof {
                lemma_filter_step(v.threads, i as int, idle);
                assert(self.resumed@.contains_key(self.resumed.list()[i as int].0.key()));
                assert(v.threads[i as int] == t@);
                assert(v.resumed[t@] == r@);
            }
            if now.saturating_sub(r.last_activity) > tun.idle_ttl {
                let ghost before = texts(dead@);
                dead.push(t.as_str().to_owned());
                assert(texts(dead@) =~= before.push(t@));
            }
            i += 1;
        }
        proof {
            assert(v.threads.take(i as int) =~= v.threads);
        }
        let requests = self.unsubscribe(&dead);
        self.forget(&dead, false);
        (dead, requests)
    }

    /// Looks at the registry's sessions where its epoch has moved: each that is not
    /// followed is looked for, anew where it had been given up.
    pub fn sync_sessions(&mut self, sessions: &Vec<String>, epoch: u64, now: u64)
        requires
            old(self).wf(),
        ensures
            final(self).wf(),
            final(self)@ == (if epoch == old(self)@.epoch {
                old(self)@
            } else {
                AttachedView {
                    epoch,
                    resolve: rearmed(old(self)@, texts(sessions@), now),
                    ..old(self)@
                }
            }),
    {
        if epoch == self.epoch {
            return;
        }
        let ghost v = self@;
        let ghost all = texts(sessions@);
        self.epoch = epoch;
        let mut i: usize = 0;
        proof {
            assert(rearmed(v, all.take(0), now) =~= v.resolve);
        }
        while i < sessions.len()
            invariant
                i <= sessions.len(),
                v == old(self)@,
                v.inv(),
                all == texts(sessions@),
                self.pending.wf(),
                self.resumed.wf(),
                self.resolve.wf(),
                self.coalescer.wf(),
                self@ == (AttachedView {
                    epoch,
                    resolve: rearmed(v, all.take(i as int), now),
                    ..v
                }),
            decreases sessions.len() - i,
        {
            let s = &sessions[i];
            proof {
                lemma_take_contains(all, i as int);
                assert(all[i as int] == s@);
            }
            let known = self.resumed.contains(s);
            if !known {
                let fresh = match self.resolve.get(s) {
                    Some(st) => st.negative,
                    None => true,
                };
                if fresh {
                    self.resolve.insert(
                        s.as_str().to_owned(),
                        ResolveState { tries: 0, next_try: now, negative: false },
                    );
                }
            }
            i += 1;
            assert(self@.resolve =~= rearmed(v, all.take(i as int), now));
        }
        assert(all.take(i as int) =~= all);
    }

    /// Whether some session is due.
    fn some_due(&self, now: u64) -> (r: bool)
        requires
            self.wf(),
        ensures
            r == (exists|s: Seq<char>| #[trigger]
                self@.resolve.contains_key(s) && is_due(
                    s,
                    self@.resolve[s],
                    self@.pending,
                    now,
                )),
    {
        let mut i: usize = 0;
        proof {
            self.resolve.lemma_list();
        }
        while i < self.resolve.len()
            invariant
                i <= self.resolve.list().len(),
                self.wf(),
                forall|j: int|
                    0 <= j < i ==> !is_due(
                        (#[trigger] self.resolve.list()[j]).0@,
                        self.resolve.list()[j].1,
                        self@.pending,
                        now,
                    ),
                forall|j: int|
                    0 <= j < self.resolve.list().len() ==> self.resolve@.contains_key(
                        (#[trigger] self.resolve.list()[j]).0.key(),
                    ) && self.resolve@[self.resolve.list()[j].0.key()] == self.resolve.list()[j].1,
            decreases self.resolve.list().len() - i,
        {
            let (s, st) = self.resolve.entry(i);
            if resolution_due(s.as_str(), st, &self.pending, now) {
                proof {
                    assert(self.resolve@.contains_key(self.resolve.list()[i as int].0.key()));
                    assert(self@.resolve.contains_key(s@));
                }
                return true;
            }
            i += 1;
        }
        proof {
            assert forall|s: Seq<char>| #[trigger] self@.resolve.contains_key(s) implies !is_due(
                s,
                self@.resolve[s],
                self@.pending,
                now,
            ) by {
                assert(self.resolve@.contains_key(s));
                let j = choose|j: int|
                    0 <= j < self.resolve.list().len() && (#[trigger] self.resolve.list()[j]).0.key()
                        == s;
                assert(!is_due(
                    self.resolve.list()[j].0@,
                    self.resolve.list()[j].1,
                    self@.pending,
                    now,
                ));
            }
        }
        false
    }

    /// Asks for the loaded threads, where they are to be asked for now.
    pub fn list_request(&mut self, now: u64, tun: &Tunables) -> (r: Option<String>)
        requires
            old(self).wf(),
            old(self)@.ids_left(1),
        ensures
            final(self).wf(),
            r is Some <==> list_due(old(self)@, now, *tun),
            r is Some ==> r->0@ == super::proto::list_request((old(self)@.next_id + 1) as i64)
                && final(self)@ == asked(old(self)@, now),
            r is None ==> final(self)@ == old(self)@,
    {
        if self.list_in_flight {
            return None;
        }
        let relist = match self.last_list {
            None => true,
            Some(at) => now.saturating_sub(at) >= tun.relist,
        };
        if !self.some_due(now) && !relist {
            return None;
        }
        let ghost v = self@;
        self.next_id = self.next_id + 1;
        let id: i64 = self.next_id;
        self.pending.insert(id, Pending::LoadedList { sent_at: now });
        self.list_in_flight = true;
        self.last_list = Some(now);
        proof {
            assert(self@.pending =~= v.pending.insert(id, PendingView::LoadedList { sent_at: now }));
            assert(self@ =~= asked(v, now));
            lemma_asked_inv(v, now);
        }
        Some(thread_loaded_list_request(id))
    }

    /// The list of the loaded threads has come. Gives the threads that are gone, and
    /// the resume requests to send.
    pub fn on_loaded(&mut self, loaded: &Vec<String>, now: u64, tun: &Tunables) -> (r: (
        Vec<String>,
        Vec<String>,
    ))
        requires
            old(self).wf(),
            old(self)@.ids_left(loaded@.len() as int),
        ensures
            final(self).wf(),
            final(self)@ == listed(old(self)@, texts(loaded@), now, *tun),
            texts(r.0@) == unloaded_threads(old(self)@, texts(loaded@)),
            are_resumes(
                r.1@,
                old(self)@.next_id,
                list_resumes(old(self)@, texts(loaded@)),
            ),
    {
        let gone = self.unloaded(loaded);
        let ghost v = self@;
        self.forget(&gone, true);
        let requests = self.resume_loaded(loaded, now);
        let ghost w = self@;
        self.count_missed(loaded, now, tun);
        (gone, requests)
    }

    /// The followed threads that are not in the list.
    fn unloaded(&self, loaded: &Vec<String>) -> (r: Vec<String>)
        requires
            self.wf(),
        ensures
            texts(r@) == unloaded_threads(self@, texts(loaded@)),
    {
        let ghost v = self@;
        let ghost l = texts(loaded@);
        let ghost gone = |t: Seq<char>| !l.contains(t);
        let mut out: Vec<String> = Vec::new();
        let mut i: usize = 0;
        proof {
            lemma_filter_none(v.threads, gone);
            assert(texts(out@) =~= v.threads.take(0).filter(gone));
        }
        while i < self.resumed.len()
            invariant
                i <= v.threads.len(),
                v == self@,
                l == texts(loaded@),
                gone == (|t: Seq<char>| !l.contains(t)),
                texts(out@) == v.threads.take(i as int).filter(gone),
            decreases v.threads.len() - i,
        {
            let (t, _) = self.resumed.entry(i);
            proof {
                lemma_filter_step(v.threads, i as int, gone);
                assert(v.threads[i as int] == t@);
            }
            if !contains_text(loaded, t.as_str()) {
                let ghost before = texts(out@);
                out.push(t.as_str().to_owned());
                assert(texts(out@) =~= before.push(t@));
            }
            i += 1;
        }
        assert(v.threads.take(i as int) =~= v.threads);
        out
    }

    /// Resumes every loaded thread that is looked for.
    fn resume_loaded(&mut self, loaded: &Vec<String>, now: u64) -> (r: Vec<String>)
        requires
            old(self).wf(),
            old(self)@.ids_left(loaded@.len() as int),
        ensures
            final(self).wf(),
            ({
                let v = old(self)@;
                let again = resumes(texts(loaded@), v.resolve, v.resumed, v.pending);
                &&& again.len() <= loaded@.len()
                &&& are_resumes(r@, v.next_id, again)
                &&& final(self)@ == (AttachedView {
                    pending: with_resumes(v.pending, v.next_id, again, now),
                    next_id: (v.next_id + again.len()) as i64,
                    ..v
                })
            }),
    {
        let ghost v = self@;
        let ghost l = texts(loaded@);
        let ghost mut again: Seq<Seq<char>> = Seq::empty();
        let mut out: Vec<String> = Vec::new();
        let mut i: usize = 0;
        proof {
            assert(l.take(0) =~= Seq::empty());
        }
        while i < loaded.len()
            invariant
                i <= loaded.len(),
                v == old(self)@,
                v.inv(),
                v.ids_left(loaded@.len() as int),
                l == texts(loaded@),
                self.wf(),
                again == resumes(l.take(i as int), v.resolve, v.resumed, v.pending),
                again.len() <= i,
                again.len() == out.len(),
                self@ == (AttachedView {
                    pending: with_resumes(v.pending, v.next_id, again, now),
                    next_id: (v.next_id + again.len()) as i64,
                    ..v
                }),
                forall|s: Seq<char>| #[trigger]
                    in_flight(self@.pending, s) == (in_flight(v.pending, s) || again.contains(s)),
                forall|k: int|
                    0 <= k < out.len() ==> (#[trigger] out@[k])@ == thread_request(
                        "thread/resume"@,
                        (v.next_id + k + 1) as i64,
                        again[k],
                    ),
            decreases loaded.len() - i,
        {
            let thread = &loaded[i];
            let session = session_for_thread(thread.as_str());
            let ghost t = thread@;
            proof {
                assert(l.take(i + 1).drop_last() =~= l.take(i as int));
                assert(l.take(i + 1).last() == t);
            }
            let wanted = resume_wanted(
                session.as_str(),
                thread.as_str(),
                &self.resolve,
                &self.resumed,
                &self.pending,
            );
            proof {
                assert(in_flight(self@.pending, t) == (in_flight(v.pending, t) || again.contains(
                    t,
                )));
            }
            if wanted {
                let ghost before = self@;
                self.next_id = self.next_id + 1;
                let id: i64 = self.next_id;
                out.push(thread_resume_request(id, thread.as_str()));
                let request = Pending::Resume {
                    thread_id: thread.as_str().to_owned(),
                    session,
                    sent_at: now,
                };
                let ghost p = request@;
                self.pending.insert(id, request);
                proof {
                    let more = again.push(t);
                    assert(more.drop_last() =~= again);
                    assert(self@.pending =~= before.pending.insert(id, p));
                    lemma_resume_inv(before, id, p);
                    assert(self@ =~= AttachedView {
                        pending: before.pending.insert(id, p),
                        next_id: id,
                        ..before
                    });
                    assert forall|s: Seq<char>| #[trigger]
                        in_flight(self@.pending, s) == (in_flight(v.pending, s)
                            || more.contains(s)) by {
                        assert(in_flight(before.pending, s) == (in_flight(v.pending, s)
                            || again.contains(s)));
                        assert(in_flight(self@.pending, s) == (in_flight(before.pending, s) || s
                            == t));
                        assert(more.contains(s) == (again.contains(s) || s == t)) by {
                            assert(more[more.len() - 1] == t);
                            if again.contains(s) {
                                let k = choose|k: int| 0 <= k < again.len() && again[k] == s;
                                assert(more[k] == s);
                            }
                            if more.contains(s) && s != t {
                                let k = choose|k: int| 0 <= k < more.len() && more[k] == s;
                                assert(again[k] == s);
                            }
                        }
                    }
                    again = more;
                }
            }
            i += 1;
        }
        assert(l.take(i as int) =~= l);
        out
    }

    /// Counts a miss of each session that has no thread in the list.
    fn count_missed(&mut self, loaded: &Vec<String>, now: u64, tun: &Tunables)
        requires
            old(self).wf(),
        ensures
            final(self).wf(),
            final(self)@ == (AttachedView {
                resolve: after_list(
                    old(self)@.resolve,
                    texts(loaded@),
                    old(self)@.pending,
                    now,
                    *tun,
                ),
                ..old(self)@
            }),
    {
        let ghost v = self@;
        let ghost l = texts(loaded@);
        let ghost want = after_list(v.resolve, l, v.pending, now, *tun);
        let mut i: usize = 0;
        proof {
            self.resolve.lemma_list();
        }
        let ghost keys = self.resolve.keys();
        while i < self.resolve.len()
            invariant
                i <= keys.len(),
                v == old(self)@,
                v.inv(),
                l == texts(loaded@),
                want == after_list(v.resolve, l, v.pending, now, *tun),
                self.pending.wf(),
                self.resumed.wf(),
                self.resolve.wf(),
                self.coalescer.wf(),
                self.resolve.keys() == keys,
                keys.no_duplicates(),
                forall|s: Seq<char>| #[trigger] v.resolve.contains_key(s) <==> keys.contains(s),
                self@ == (AttachedView { resolve: self@.resolve, ..v }),
                forall|s: Seq<char>| #[trigger]
                    self@.resolve.contains_key(s) <==> v.resolve.contains_key(s),
                forall|j: int|
                    0 <= j < keys.len() ==> self@.resolve[#[trigger] keys[j]] == (if j < i {
                        want[keys[j]]
                    } else {
                        v.resolve[keys[j]]
                    }),
            decreases keys.len() - i,
        {
            proof {
                self.resolve.lemma_list();
            }
            let (s, st) = self.resolve.entry(i);
            let ghost k = keys[i as int];
            proof {
                assert(self.resolve.keys()[i as int] == k);
                assert(self.resolve@.contains_key(self.resolve.list()[i as int].0.key()));
                assert(*st == v.resolve[k]);
                assert(keys.contains(k));
                assert(want.contains_key(k));
            }
            let matched = contains_text(loaded, s.as_str());
            if !matched && !st.negative && !resume_in_flight(s.as_str(), &self.pending) {
                let tries: u32 = st.tries.saturating_add(1);
                let next = if tries >= tun.resolve_tries {
                    ResolveState { tries, next_try: st.next_try, negative: true }
                } else {
                    ResolveState {
                        tries,
                        next_try: now.saturating_add(tun.resolve_retry),
                        negative: st.negative,
                    }
                };
                assert(next == want[k]);
                self.resolve.set_value(i, next);
            }
            i += 1;
        }
        proof {
            assert forall|s: Seq<char>| #[trigger] self@.resolve.contains_key(s) implies self@.resolve[s]
                == want[s] by {
                assert(keys.contains(s));
                let j = choose|j: int| 0 <= j < keys.len() && keys[j] == s;
                assert(self@.resolve[keys[j]] == want[keys[j]]);
            }
            assert(self@.resolve =~= want);
        }
    }

    /// A reply has come.
    pub fn on_response(&mut self, id: i64, result: Option<Json>, now: u64, tun: &Tunables) -> (r:
        Reply)
        requires
            old(self).wf(),
            result matches Some(j) ==> old(self)@.ids_left(loaded_ids(j@).len() as int),
        ensures
            final(self).wf(),
            replied(old(self)@, id, json_opt(result), now, *tun, r, final(self)@),
    {
        let ghost v = self@;
        match self.pending.remove(&id) {
            None => {
                assert(self@.pending =~= v.pending);
                Reply::Unknown
            },
            Some(Pending::LoadedList { sent_at: _ }) => {
                self.list_in_flight = false;
                proof {
                    assert(self@.pending =~= v.pending.remove(id));
                    lemma_answered_inv(v, id);
                    assert(self@ =~= answered(v, id));
                }
                match result {
                    None => Reply::ListFailed,
                    Some(result) => {
                        let loaded = loaded_thread_ids(&result);
                        assert(texts(loaded@).len() == loaded@.len());
                        let (evicted, resumes) = self.on_loaded(&loaded, now, tun);
                        Reply::Listed { evicted, resumes }
                    },
                }
            },
            Some(Pending::Resume { thread_id, session, sent_at: _ }) => {
                proof {
                    assert(v.pending.contains_key(id));
                    assert(self@.pending =~= v.pending.remove(id));
                    lemma_answered_inv(v, id);
                    assert(self@ =~= answered(v, id));
                }
                match result {
                    Some(result) => {
                        let reported = resumed_session_id(&result);
                        let _ = self.resolve.remove(&session);
                        let ghost before = self@;
                        self.resumed.insert(
                            thread_id.as_str().to_owned(),
                            ResumedSession {
                                session: session.as_str().to_owned(),
                                last_activity: now,
                            },
                        );
                        proof {
                            let w = attached(answered(v, id), thread_id@, session@, now);
                            assert(self@.resumed =~= w.resumed);
                            assert(self@.threads =~= w.threads);
                            assert(self@ =~= w);
                            lemma_attached_inv(answered(v, id), thread_id@, now);
                        }
                        Reply::Attached { thread_id, session, reported }
                    },
                    None => {
                        match self.resolve.get(&session) {
                            Some(st) => {
                                let next = ResolveState {
                                    tries: st.tries,
                                    next_try: now.saturating_add(tun.resolve_retry),
                                    negative: st.negative,
                                };
                                self.resolve.insert(session.as_str().to_owned(), next);
                            },
                            None => {},
                        }
                        proof {
                            assert(self@.resolve =~= put_off(
                                answered(v, id),
                                session@,
                                now,
                                *tun,
                            ).resolve);
                        }
                        Reply::Refused { session }
                    },
                }
            },
        }
    }

    /// Marks a followed thread as alive. Gives its session, where it is followed.
    fn touch(&mut self, thread_id: &str, now: u64) -> (r: Option<String>)
        requires
            old(self).wf(),
        ensures
            final(self).wf(),
            r is Some <==> old(self)@.resumed.contains_key(thread_id@),
            r is Some ==> r->0@ == thread_id@ && final(self)@ == alive(
                old(self)@,
                thread_id@,
                now,
            ),
            r is None ==> final(self)@ == old(self)@,
            final(self).coalescer == old(self).coalescer,
    {
        let key = thread_id.to_owned();
        let ghost v = self@;
        match self.resumed.find(&key) {
            Some(i) => {
                proof {
                    self.resumed.lemma_list();
                    assert(self@.resumed.contains_key(thread_id@));
                }
                let (_, r) = self.resumed.entry(i);
                let session = r.session.as_str().to_owned();
                self.resumed.set_value(
                    i,
                    ResumedSession { session: session.as_str().to_owned(), last_activity: now },
                );
                proof {
                    assert(self@.resumed =~= alive(v, thread_id@, now).resumed);
                    assert(self@ =~= alive(v, thread_id@, now));
                }
                Some(session)
            },
            None => None,
        }
    }

    /// A piece of an assistant message has come. Text is buffered for a followed
    /// thread alone, and handed on at a newline.
    pub fn on_delta(&mut self, thread_id: &str, item_id: &str, delta: &str, now: u64) -> (r: Option<
        (String, StreamBatch),
    >)
        requires
            old(self).wf(),
        ensures
            final(self).wf(),
            final(self)@ == streamed(old(self)@, thread_id@, item_id@, delta@, now).0,
            one_or_none(r) == streamed(old(self)@, thread_id@, item_id@, delta@, now).1,
    {
        match self.touch(thread_id, now) {
            Some(session) => self.coalescer.on_delta(session.as_str(), item_id, delta, now),
            None => None,
        }
    }

    /// An assistant message is complete: the authoritative text of a followed
    /// thread's message is handed on.
    pub fn on_completed(&mut self, thread_id: &str, item_id: &str, text: &str, now: u64) -> (r:
        Option<(String, StreamBatch)>)
        requires
            old(self).wf(),
        ensures
            final(self).wf(),
            final(self)@ == completed(old(self)@, thread_id@, item_id@, text@, now).0,
            one_or_none(r) == completed(old(self)@, thread_id@, item_id@, text@, now).1,
    {
        match self.touch(thread_id, now) {
            Some(session) => Some(self.coalescer.on_completed(session.as_str(), item_id, text)),
            None => None,
        }
    }

    /// A turn has ended: whatever is buffered for a followed thread is handed on.
    pub fn on_turn_completed(&mut self, thread_id: &str, now: u64) -> (r: Vec<
        (String, StreamBatch),
    >)
        requires
            old(self).wf(),
        ensures
            final(self).wf(),
            final(self)@ == turn_ended(old(self)@, thread_id@, now).0,
            batch_views(r@) == turn_ended(old(self)@, thread_id@, now).1,
    {
        match self.touch(thread_id, now) {
            Some(session) => self.coalescer.flush_aged(now, 0, Some(session.as_str())),
            None => {
                let none: Vec<(String, StreamBatch)> = Vec::new();
                assert(batch_views(none@) =~= Seq::empty());
                none
            },
        }
    }

    /// Hands on the text of buffers that have been quiet for long enough.
    pub fn flush_quiet(&mut self, now: u64, tun: &Tunables) -> (r: Vec<(String, StreamBatch)>)
        requires
            old(self).wf(),
        ensures
            final(self).wf(),
            batch_views(r@) == swept_batches(
                old(self)@.items,
                old(self)@.bufs,
                now,
                tun.flush_age,
                None,
            ),
            final(self)@ == (AttachedView {
                bufs: swept(old(self)@.bufs, now, tun.flush_age, None),
                ..old(self)@
            }),
    {
        self.coalescer.flush_aged(now, tun.flush_age, None)
    }

    /// A frame has come.
    pub fn on_incoming(&mut self, incoming: Incoming, now: u64, tun: &Tunables) -> (r: Step)
        requires
            old(self).wf(),
        ensures
            final(self).wf(),
            stepped(old(self)@, incoming@, now, *tun, r, final(self)@),
    {
        match incoming {
            Incoming::Response { id, result } => {
                let room = match &result {
                    Some(j) => {
                        let loaded = loaded_thread_ids(j);
                        assert(texts(loaded@).len() == loaded@.len());
                        loaded.len() as u64 <= (i64::MAX - self.next_id) as u64
                    },
                    None => true,
                };
                if room {
                    Step::Reply(self.on_response(id, result, now, tun))
                } else {
                    Step::Exhausted
                }
            },
            Incoming::AgentMessageDelta { thread_id, item_id, delta } => {
                let mut out: Vec<(String, StreamBatch)> = Vec::new();
                match self.on_delta(thread_id.as_str(), item_id.as_str(), delta.as_str(), now) {
                    Some(b) => {
                        out.push(b);
                        assert(batch_views(out@) =~= seq![batch_view(b)]);
                    },
                    None => {
                        assert(batch_views(out@) =~= Seq::empty());
                    },
                }
                Step::Batches(out)
            },
            Incoming::AgentMessageCompleted { thread_id, item_id, text } => {
                let mut out: Vec<(String, StreamBatch)> = Vec::new();
                match self.on_completed(thread_id.as_str(), item_id.as_str(), text.as_str(), now) {
                    Some(b) => {
                        out.push(b);
                        assert(batch_views(out@) =~= seq![batch_view(b)]);
                    },
                    None => {
                        assert(batch_views(out@) =~= Seq::empty());
                    },
                }
                Step::Batches(out)
            },
            Incoming::TurnCompleted { thread_id } => Step::Batches(
                self.on_turn_completed(thread_id.as_str(), now),
            ),
            Incoming::Other => Step::Nothing,
        }
    }
}

/// Whether a resume of `s` is in `all` and not in `rest`.
spec fn gone_resume(all: Map<i64, PendingView>, rest: Map<i64, PendingView>, s: Seq<char>) -> bool {
    exists|id: i64| #[trigger]
        all.contains_key(id) && all[id].resumes() == Some(s) && !rest.contains_key(id)
}

/// Taking one more request out makes its session's resume gone, and no other's.
proof fn lemma_gone_resume(
    all: Map<i64, PendingView>,
    rest: Map<i64, PendingView>,
    id: i64,
    s: Seq<char>,
)
    requires
        all.contains_key(id),
        rest.contains_key(id),
    ensures
        gone_resume(all, rest.remove(id), s) == (all[id].resumes() == Some(s) || gone_resume(
            all,
            rest,
            s,
        )),
{
    if gone_resume(all, rest.remove(id), s) {
        let x = choose|x: i64| #[trigger]
            all.contains_key(x) && all[x].resumes() == Some(s) && !rest.remove(id).contains_key(x);
        if x != id {
            assert(!rest.contains_key(x));
        }
    }
    if gone_resume(all, rest, s) {
        let x = choose|x: i64| #[trigger]
            all.contains_key(x) && all[x].resumes() == Some(s) && !rest.contains_key(x);
        assert(!rest.remove(id).contains_key(x));
    }
    if all[id].resumes() == Some(s) {
        assert(!rest.remove(id).contains_key(id));
    }
}

/// Forgetting no thread changes nothing.
proof fn lemma_forget_none(v: AttachedView, gone: Seq<Seq<char>>)
    requires
        gone.len() == 0,
    ensures
        forgotten(v, gone) == v,
        dropped(v, gone) == v,
{
    lemma_not_in_none(v.threads, gone);
    crate::seqs::lemma_filter_all(
        v.items,
        |k: (Seq<char>, Seq<char>)| !gone.contains(k.0),
    );
    assert(without(v.resumed, gone) =~= v.resumed);
    assert(without(v.resolve, gone) =~= v.resolve);
    assert(without_bufs(v.bufs, gone) =~= v.bufs);
}

/// Forgetting one thread more.
proof fn lemma_forget_step(v: AttachedView, gone: Seq<Seq<char>>, n: int)
    requires
        0 <= n < gone.len(),
    ensures
        without(v.resumed, gone.take(n)).remove(gone[n]) == without(v.resumed, gone.take(n + 1)),
        without(v.resolve, gone.take(n)).remove(gone[n]) == without(v.resolve, gone.take(n + 1)),
        filter_out(not_in(v.threads, gone.take(n)), gone[n]) == not_in(
            v.threads,
            gone.take(n + 1),
        ),
        without_session(without_bufs(v.bufs, gone.take(n)), gone[n]) == without_bufs(
            v.bufs,
            gone.take(n + 1),
        ),
        items_without(items_not_in(v.items, gone.take(n)), gone[n]) == items_not_in(
            v.items,
            gone.take(n + 1),
        ),
{
    lemma_take_contains(gone, n);
    lemma_not_in_step(v.threads, gone, n);
    assert(without(v.resumed, gone.take(n)).remove(gone[n]) =~= without(
        v.resumed,
        gone.take(n + 1),
    ));
    assert(without(v.resolve, gone.take(n)).remove(gone[n]) =~= without(
        v.resolve,
        gone.take(n + 1),
    ));
    assert(without_session(without_bufs(v.bufs, gone.take(n)), gone[n]) =~= without_bufs(
        v.bufs,
        gone.take(n + 1),
    ));
    let p = |k: (Seq<char>, Seq<char>)| !gone.take(n).contains(k.0);
    let q = |k: (Seq<char>, Seq<char>)| k.0 != gone[n];
    lemma_filter_twice(v.items, p, q);
    lemma_filter_alike(
        v.items,
        |k: (Seq<char>, Seq<char>)| p(k) && q(k),
        |k: (Seq<char>, Seq<char>)| !gone.take(n + 1).contains(k.0),
    );
}

/// Forgetting threads keeps the invariant.
proof fn lemma_forgotten_inv(v: AttachedView, gone: Seq<Seq<char>>)
    requires
        v.inv(),
    ensures
        forgotten(v, gone).inv(),
        dropped(v, gone).inv(),
{
    lemma_filter_unique(v.threads, |x: Seq<char>| !gone.contains(x));
    lemma_filter_members(v.threads, |x: Seq<char>| !gone.contains(x));
}

/// Giving out numbers keeps the invariant.
proof fn lemma_numbered_inv(v: AttachedView, n: int)
    requires
        v.inv(),
        0 <= n,
        v.ids_left(n),
    ensures
        (AttachedView { next_id: (v.next_id + n) as i64, ..v }).inv(),
{
    let w = AttachedView { next_id: (v.next_id + n) as i64, ..v };
    assert forall|id: i64| #[trigger] w.pending.contains_key(id) implies 0 < id <= w.next_id by {
        assert(v.pending.contains_key(id));
    }
    assert(lists(w.pending) == lists(v.pending));
}

/// Asking for the loaded threads keeps the invariant.
proof fn lemma_asked_inv(v: AttachedView, now: u64)
    requires
        v.inv(),
        v.ids_left(1),
        !v.list_in_flight,
    ensures
        asked(v, now).inv(),
{
    let w = asked(v, now);
    let id = (v.next_id + 1) as i64;
    assert(w.pending.contains_key(id));
    assert(lists(w.pending));
    assert(!v.pending.contains_key(id));
    assert forall|a: i64| #[trigger] v.pending.contains_key(a) implies !(
    v.pending[a] is LoadedList) by {
        if v.pending[a] is LoadedList {
            assert(lists(v.pending));
        }
    }
}

/// Sending a resume keeps the invariant, where none of its session is awaited.
proof fn lemma_resume_inv(v: AttachedView, id: i64, p: PendingView)
    requires
        v.inv(),
        id == v.next_id + 1,
        p matches PendingView::Resume { thread_id, session, sent_at } && thread_id == session,
        !in_flight(v.pending, p.resumes()->0),
    ensures
        (AttachedView { pending: v.pending.insert(id, p), next_id: id, ..v }).inv(),
        forall|s: Seq<char>| #[trigger]
            in_flight(v.pending.insert(id, p), s) == (in_flight(v.pending, s) || p.resumes()
                == Some(s)),
{
    let w = AttachedView { pending: v.pending.insert(id, p), next_id: id, ..v };
    assert(!v.pending.contains_key(id));
    assert(lists(w.pending) == lists(v.pending)) by {
        if lists(v.pending) {
            let x = choose|x: i64| #[trigger]
                v.pending.contains_key(x) && v.pending[x] is LoadedList;
            assert(w.pending.contains_key(x));
        }
        if lists(w.pending) {
            let x = choose|x: i64| #[trigger]
                w.pending.contains_key(x) && w.pending[x] is LoadedList;
            assert(v.pending.contains_key(x));
        }
    }
    assert forall|s: Seq<char>| #[trigger] in_flight(w.pending, s) == (in_flight(v.pending, s)
        || p.resumes() == Some(s)) by {
        if in_flight(v.pending, s) {
            let x = choose|x: i64| #[trigger]
                v.pending.contains_key(x) && v.pending[x].resumes() == Some(s);
            assert(w.pending.contains_key(x));
        }
        if p.resumes() == Some(s) {
            assert(w.pending.contains_key(id));
        }
        if in_flight(w.pending, s) {
            let x = choose|x: i64| #[trigger]
                w.pending.contains_key(x) && w.pending[x].resumes() == Some(s);
            if x != id {
                assert(v.pending.contains_key(x));
            }
        }
    }
    assert forall|a: i64, b: i64|
        w.pending.contains_key(a) && w.pending.contains_key(b) && (
        #[trigger] w.pending[a]).resumes() is Some && (#[trigger] w.pending[b]).resumes()
            == w.pending[a].resumes() implies a == b by {
        if a == id && b != id {
            assert(v.pending.contains_key(b));
            assert(in_flight(v.pending, p.resumes()->0));
        }
        if b == id && a != id {
            assert(v.pending.contains_key(a));
            assert(in_flight(v.pending, p.resumes()->0));
        }
    }
}

/// No longer awaiting a request keeps the invariant.
proof fn lemma_answered_inv(v: AttachedView, id: i64)
    requires
        v.inv(),
        v.pending.contains_key(id),
    ensures
        answered(v, id).inv(),
{
    let w = answered(v, id);
    assert(lists(w.pending) == w.list_in_flight) by {
        if lists(w.pending) {
            let x = choose|x: i64| #[trigger]
                w.pending.contains_key(x) && w.pending[x] is LoadedList;
            assert(v.pending.contains_key(x));
            assert(v.pending[x] is LoadedList);
            assert(lists(v.pending));
            if v.pending[id] is LoadedList {
                assert(x == id);
            }
        }
        if w.list_in_flight {
            let x = choose|x: i64| #[trigger]
                v.pending.contains_key(x) && v.pending[x] is LoadedList;
            assert(w.pending.contains_key(x));
        }
    }
}

/// Following a thread under its own session keeps the invariant.
proof fn lemma_attached_inv(v: AttachedView, thread: Seq<char>, now: u64)
    requires
        v.inv(),
    ensures
        attached(v, thread, thread, now).inv(),
{
    let w = attached(v, thread, thread, now);
    if !v.resumed.contains_key(thread) {
        assert forall|t: Seq<char>| #[trigger] w.resumed.contains_key(t) <==> w.threads.contains(
            t,
        ) by {
            assert(w.threads[w.threads.len() - 1] == thread);
            if v.threads.contains(t) {
                let i = choose|i: int| 0 <= i < v.threads.len() && v.threads[i] == t;
                assert(w.threads[i] == t);
            }
            if w.threads.contains(t) && t != thread {
                let i = choose|i: int| 0 <= i < w.threads.len() && w.threads[i] == t;
                assert(v.threads[i] == t);
            }
        }
        assert(!v.threads.contains(thread));
    } else {
        assert(v.threads.contains(thread));
    }
}

// ── What the connection promises ─────────────────────────────────────────────

/// Only threads of sessions that the hooks mentioned are ever resumed: each thread
/// that a list makes the connection resume is loaded, looked for, not followed yet,
/// and has no resume awaited. None is resumed twice.
pub proof fn law_foreign_threads_are_never_resumed(v: AttachedView, loaded: Seq<Seq<char>>)
    requires
        v.inv(),
    ensures
        list_resumes(v, loaded).no_duplicates(),
        forall|t: Seq<char>| #[trigger]
            list_resumes(v, loaded).contains(t) ==> loaded.contains(t) && v.resolve.contains_key(t)
                && !v.resumed.contains_key(t) && !in_flight(v.pending, t),
{
    let gone = unloaded_threads(v, loaded);
    let left = dropped(v, gone);
    lemma_resumes(loaded, left.resolve, left.resumed, v.pending);
    lemma_filter_members(v.threads, |t: Seq<char>| !loaded.contains(t));
    assert forall|t: Seq<char>| #[trigger] list_resumes(v, loaded).contains(t) implies
        !v.resumed.contains_key(t) by {
        assert(left.resolve.contains_key(t));
        assert(!gone.contains(t));
    }
}

proof fn lemma_resumes(
    loaded: Seq<Seq<char>>,
    resolve: Map<Seq<char>, ResolveState>,
    resumed: Map<Seq<char>, ResumedView>,
    pending: Map<i64, PendingView>,
)
    ensures
        resumes(loaded, resolve, resumed, pending).no_duplicates(),
        forall|t: Seq<char>| #[trigger]
            resumes(loaded, resolve, resumed, pending).contains(t) <==> loaded.contains(t)
                && resolve.contains_key(t) && !resumed.contains_key(t) && !in_flight(pending, t),
    decreases loaded.len(),
{
    if loaded.len() > 0 {
        let l = loaded.drop_last();
        let r = resumes(l, resolve, resumed, pending);
        lemma_resumes(l, resolve, resumed, pending);
        lemma_take_contains(loaded, loaded.len() - 1);
        assert(loaded.take(loaded.len() - 1) =~= l);
        assert(loaded.take(loaded.len() as int) =~= loaded);
        let t = loaded.last();
        let m = resumes(loaded, resolve, resumed, pending);
        if m != r {
            assert(m == r.push(t));
            assert(m.drop_last() =~= r);
            assert forall|x: Seq<char>| #[trigger] m.contains(x) <==> r.contains(x) || x == t by {
                assert(m[m.len() - 1] == t);
                if r.contains(x) {
                    let i = choose|i: int| 0 <= i < r.len() && r[i] == x;
                    assert(m[i] == x);
                }
                if m.contains(x) && x != t {
                    let i = choose|i: int| 0 <= i < m.len() && m[i] == x;
                    assert(r[i] == x);
                }
            }
        }
    }
}

/// A failed list changes nothing but that it is no longer awaited: no thread is
/// evicted, no search given up, and no buffered text lost.
pub proof fn law_failed_list_never_evicts(
    v: AttachedView,
    id: i64,
    now: u64,
    tun: Tunables,
    r: Reply,
    w: AttachedView,
)
    requires
        v.inv(),
        v.pending.contains_key(id),
        v.pending[id] is LoadedList,
        replied(v, id, None, now, tun, r, w),
    ensures
        w.resumed == v.resumed,
        w.threads == v.threads,
        w.resolve == v.resolve,
        w.bufs == v.bufs,
        !w.list_in_flight,
{
}

/// After a list, every followed thread is loaded; of a thread that is gone nothing is
/// left: it is not followed, its session is not looked for, and no text of it is
/// buffered. A thread that is still loaded is followed as before.
pub proof fn law_unloaded_threads_are_forgotten(
    v: AttachedView,
    loaded: Seq<Seq<char>>,
    now: u64,
    tun: Tunables,
)
    requires
        v.inv(),
    ensures
        forall|t: Seq<char>| #[trigger]
            listed(v, loaded, now, tun).resumed.contains_key(t) <==> v.resumed.contains_key(t)
                && loaded.contains(t),
        forall|t: Seq<char>|
            v.resumed.contains_key(t) && !loaded.contains(t) ==> !(
            #[trigger] listed(v, loaded, now, tun).resolve.contains_key(t)),
        forall|k: (Seq<char>, Seq<char>)|
            v.resumed.contains_key(k.0) && !loaded.contains(k.0) ==> !(
            #[trigger] listed(v, loaded, now, tun).bufs.contains_key(k)),
{
    lemma_filter_members(v.threads, |t: Seq<char>| !loaded.contains(t));
}

/// At most one resume of a session is awaited at any time.
pub proof fn law_one_resume_per_session(v: AttachedView, a: i64, b: i64, session: Seq<char>)
    requires
        v.inv(),
        v.pending.contains_key(a) && v.pending[a].resumes() == Some(session),
        v.pending.contains_key(b) && v.pending[b].resumes() == Some(session),
    ensures
        a == b,
{
}

/// A session that was given up stays so through lists, until the hooks mention it
/// again; then it is looked for at once.
pub proof fn law_given_up_until_mentioned(
    v: AttachedView,
    session: Seq<char>,
    loaded: Seq<Seq<char>>,
    sessions: Seq<Seq<char>>,
    now: u64,
    tun: Tunables,
)
    requires
        v.inv(),
        v.resolve.contains_key(session),
        v.resolve[session].negative,
    ensures
        !v.resumed.contains_key(session) ==> listed(v, loaded, now, tun).resolve.contains_key(
            session,
        ) && listed(v, loaded, now, tun).resolve[session].negative,
        !is_due(session, v.resolve[session], v.pending, now),
        sessions.contains(session) && !v.resumed.contains_key(session) ==> rearmed(
            v,
            sessions,
            now,
        )[session] == to_resolve(now),
{
    lemma_filter_members(v.threads, |t: Seq<char>| !loaded.contains(t));
}

/// Nothing is narrated for a thread that is not followed.
pub proof fn law_unfollowed_threads_are_silent(
    v: AttachedView,
    thread: Seq<char>,
    item: Seq<char>,
    text: Seq<char>,
    now: u64,
)
    requires
        !v.resumed.contains_key(thread),
    ensures
        streamed(v, thread, item, text, now) == (v, Seq::<(Seq<char>, BatchView)>::empty()),
        completed(v, thread, item, text, now) == (v, Seq::<(Seq<char>, BatchView)>::empty()),
        turn_ended(v, thread, now) == (v, Seq::<(Seq<char>, BatchView)>::empty()),
{
}

/// A piece of a followed thread's message is added to what waits of that message, and all
/// of it is handed on once it holds a line end; the thread is alive then.
pub proof fn law_piece_joins_its_message(
    v: AttachedView,
    thread: Seq<char>,
    item: Seq<char>,
    delta: Seq<char>,
    now: u64,
)
    requires
        v.resumed.contains_key(thread),
    ensures
        ({
            let k = (thread, item);
            let waiting = if v.bufs.contains_key(k) {
                v.bufs[k].pending
            } else {
                Seq::empty()
            };
            let text = waiting + delta;
            let (w, out) = streamed(v, thread, item, delta, now);
            &&& w.bufs.contains_key(k)
            &&& text.contains('\n') ==> w.bufs[k].pending.len() == 0 && out.len() == 1 && out[0].0
                == thread && out[0].1.key == item && !out[0].1.is_final && (
            out[0].1.payload matches PayloadView::Delta { text: t, .. } && t == text)
            &&& !text.contains('\n') ==> w.bufs[k].pending == text && out.len() == 0
            &&& w.resumed[thread].last_activity == now
            &&& w.resumed[thread].session == v.resumed[thread].session
            &&& w.pending == v.pending && w.resolve == v.resolve && w.threads == v.threads
        }),
{
}

/// A message that is complete is handed on as it was written, as the last of its item; what
/// waited of it is dropped, and other messages keep theirs.
pub proof fn law_complete_message_is_final(
    v: AttachedView,
    thread: Seq<char>,
    item: Seq<char>,
    text: Seq<char>,
    now: u64,
    other: (Seq<char>, Seq<char>),
)
    requires
        v.resumed.contains_key(thread),
        other != (thread, item),
    ensures
        ({
            let (w, out) = completed(v, thread, item, text, now);
            &&& out == seq![
                (
                    thread,
                    BatchView {
                        key: item,
                        payload: PayloadView::Cumulative { text },
                        is_final: true,
                    },
                ),
            ]
            &&& !w.bufs.contains_key((thread, item))
            &&& w.bufs.contains_key(other) == v.bufs.contains_key(other)
            &&& v.bufs.contains_key(other) ==> w.bufs[other] == v.bufs[other]
            &&& w.resumed[thread].last_activity == now
        }),
{
}

/// The end of a turn leaves no text of its thread waiting, and touches no other thread's.
pub proof fn law_turn_end_leaves_nothing_waiting(
    v: AttachedView,
    thread: Seq<char>,
    k: (Seq<char>, Seq<char>),
    now: u64,
)
    requires
        v.resumed.contains_key(thread),
        v.bufs.contains_key(k),
    ensures
        ({
            let (w, out) = turn_ended(v, thread, now);
            &&& k.0 == thread ==> w.bufs[k].pending.len() == 0
            &&& k.0 != thread ==> w.bufs[k] == v.bufs[k]
            &&& w.resumed[thread].last_activity == now
        }),
        v.items == seq![k] && k.0 == thread && v.bufs[k].pending.len() > 0 ==> turn_ended(
            v,
            thread,
            now,
        ).1 == seq![(thread, delta_batch(k.1, v.bufs[k].seq, v.bufs[k].pending))],
{
    if v.items == seq![k] {
        reveal_with_fuel(swept_batches, 2);
        assert(v.items.drop_last() =~= Seq::<(Seq<char>, Seq<char>)>::empty());
        assert(v.items.last() == k);
        if k.0 == thread && v.bufs[k].pending.len() > 0 {
            assert(turn_ended(v, thread, now).1 =~= seq![
                (thread, delta_batch(k.1, v.bufs[k].seq, v.bufs[k].pending)),
            ]);
        }
    }
}

/// A session's thread is looked for once its time has come, unless it was given up or its
/// resume is awaited.
pub proof fn law_when_a_thread_is_looked_for(
    session: Seq<char>,
    st: ResolveState,
    pending: Map<i64, PendingView>,
    now: u64,
    id: i64,
    sent_at: u64,
)
    ensures
        is_due(session, st, Map::empty(), now) <==> !st.negative && st.next_try <= now,
        !is_due(
            session,
            st,
            pending.insert(id, PendingView::Resume { thread_id: session, session, sent_at }),
            now,
        ),
        to_resolve(now).next_try == now && to_resolve(now).tries == 0 && !to_resolve(now).negative,
        is_due(session, to_resolve(now), Map::empty(), now),
{
    let p = pending.insert(id, PendingView::Resume { thread_id: session, session, sent_at });
    assert(p.contains_key(id) && p[id].resumes() == Some(session));
}

/// A connection is left where streaming is off or Codex is gone, or where another endpoint
/// is configured than the one it is connected to; and for no other reason.
pub proof fn law_when_a_connection_is_left(a: Seq<char>, b: Option<Seq<char>>)
    ensures
        detach_reason(false, true, Some(a), Some(a)) == Some(Detach::Disabled),
        detach_reason(true, false, Some(a), Some(a)) == Some(Detach::Disabled),
        detach_reason(true, true, Some(a), Some(a)) is None,
        b != Some(a) ==> detach_reason(true, true, Some(a), b) == Some(Detach::Reconfigure),
        detach_reason(true, true, None, b) is None,
{
}

/// A request is given up once its reply is as late as it may be; a session whose resume was
/// given up is looked for again after its wait, and the others as before.
pub proof fn law_late_requests_are_given_up(
    v: AttachedView,
    id: i64,
    session: Seq<char>,
    now: u64,
    tun: Tunables,
)
    requires
        v.pending.contains_key(id),
        v.pending[id].sent() <= now,
        v.resolve.contains_key(session),
        now + tun.resolve_retry <= u64::MAX,
    ensures
        ({
            let left = unexpired(v.pending, now, tun.request_timeout);
            let late = now - v.pending[id].sent() >= tun.request_timeout;
            &&& left.contains_key(id) <==> !late
            &&& !late ==> left[id] == v.pending[id]
            &&& late && v.pending[id].resumes() == Some(session) ==> after_expiry(
                v,
                now,
                tun,
            )[session] == (ResolveState {
                next_try: (now + tun.resolve_retry) as u64,
                ..v.resolve[session]
            })
        }),
        v.pending == Map::<i64, PendingView>::empty().insert(id, v.pending[id])
            && v.pending[id].resumes() != Some(session) ==> after_expiry(v, now, tun)[session]
            == v.resolve[session],
{
}

/// A thread that has been silent for longer than it may is followed no longer; one that has
/// not is.
pub proof fn law_silent_threads_are_left(v: AttachedView, t: Seq<char>, now: u64, ttl: u64)
    requires
        v.resumed[t].last_activity <= now,
    ensures
        idle_threads(v, now, ttl).contains(t) <==> v.threads.contains(t) && now
            - v.resumed[t].last_activity > ttl,
        unloaded_threads(v, Seq::empty()).contains(t) <==> v.threads.contains(t),
{
    lemma_filter_members(
        v.threads,
        |t: Seq<char>| now.saturating_sub(v.resumed[t].last_activity) > ttl,
    );
    let none = Seq::<Seq<char>>::empty();
    lemma_filter_members(v.threads, |t: Seq<char>| !none.contains(t));
}

/// A search that comes up empty counts: it is made again after its wait, and given up with
/// the last try that it has.
pub proof fn law_searches_are_given_up(st: ResolveState, now: u64, tun: Tunables)
    requires
        st.tries < u32::MAX,
        !st.negative,
        now + tun.resolve_retry <= u64::MAX,
    ensures
        missed(st, now, tun).tries == st.tries + 1,
        missed(st, now, tun).negative <==> st.tries + 1 >= tun.resolve_tries,
        st.tries + 1 < tun.resolve_tries ==> missed(st, now, tun).next_try == now
            + tun.resolve_retry,
{
}

/// A session that the hooks have mentioned is looked for unless its thread is followed; one
/// that is looked for already goes on, and one that was given up starts over.
pub proof fn law_mentioned_sessions_are_looked_for(
    v: AttachedView,
    sessions: Seq<Seq<char>>,
    s: Seq<char>,
    now: u64,
)
    ensures
        rearmed(v, sessions, now).contains_key(s) <==> v.resolve.contains_key(s) || (
        sessions.contains(s) && !v.resumed.contains_key(s)),
        sessions.contains(s) && !v.resumed.contains_key(s) && !v.resolve.contains_key(s)
            ==> rearmed(v, sessions, now)[s] == to_resolve(now),
        v.resolve.contains_key(s) && !v.resolve[s].negative ==> rearmed(v, sessions, now)[s]
            == v.resolve[s],
        v.resolve.contains_key(s) && !sessions.contains(s) ==> rearmed(v, sessions, now)[s]
            == v.resolve[s],
{
}

/// The loaded threads are asked for when a session is due, when they were never asked for,
/// and when the last list is old; never while a list is awaited. The request has the next
/// number.
pub proof fn law_when_the_threads_are_asked_for(
    v: AttachedView,
    s: Seq<char>,
    at: u64,
    now: u64,
    tun: Tunables,
)
    requires
        v.next_id < i64::MAX,
        at <= now,
    ensures
        v.list_in_flight ==> !list_due(v, now, tun),
        !v.list_in_flight && v.last_list is None ==> list_due(v, now, tun),
        !v.list_in_flight && v.last_list == Some(at) && now - at >= tun.relist ==> list_due(
            v,
            now,
            tun,
        ),
        !v.list_in_flight && v.resolve.contains_key(s) && is_due(s, v.resolve[s], v.pending, now)
            ==> list_due(v, now, tun),
        v.last_list == Some(at) && now - at < tun.relist && v.resolve == Map::<
            Seq<char>,
            ResolveState,
        >::empty() ==> !list_due(v, now, tun),
        ({
            let w = asked(v, now);
            &&& w.next_id == v.next_id + 1
            &&& w.pending == v.pending.insert(
                (v.next_id + 1) as i64,
                PendingView::LoadedList { sent_at: now },
            )
            &&& w.list_in_flight && w.last_list == Some(now)
            &&& w.resumed == v.resumed && w.resolve == v.resolve && w.bufs == v.bufs
        }),
{
}

/// A thread whose resume was answered is followed under its session from then on, and is
/// looked for no longer; one whose resume was refused is looked for again after its wait.
pub proof fn law_what_a_resume_leads_to(
    v: AttachedView,
    thread: Seq<char>,
    session: Seq<char>,
    now: u64,
    tun: Tunables,
)
    requires
        now + tun.resolve_retry <= u64::MAX,
    ensures
        ({
            let w = attached(v, thread, session, now);
            &&& w.resumed.contains_key(thread)
            &&& w.resumed[thread] == (ResumedView { session, last_activity: now })
            &&& !w.resolve.contains_key(session)
            &&& v.resumed.contains_key(thread) ==> w.threads == v.threads
            &&& !v.resumed.contains_key(thread) ==> w.threads == v.threads.push(thread)
        }),
        v.resolve.contains_key(session) ==> put_off(v, session, now, tun).resolve[session] == (
        ResolveState { next_try: (now + tun.resolve_retry) as u64, ..v.resolve[session] }),
        put_off(v, session, now, tun).resumed == v.resumed,
        !v.resolve.contains_key(session) ==> put_off(v, session, now, tun) == v,
{
}

/// Every loaded thread that is looked for is resumed, unless it is followed or its resume
/// is awaited already.
pub proof fn law_every_wanted_thread_is_resumed(
    v: AttachedView,
    loaded: Seq<Seq<char>>,
    t: Seq<char>,
)
    requires
        loaded.contains(t),
        v.resolve.contains_key(t),
        !v.resumed.contains_key(t),
        !in_flight(v.pending, t),
        v.inv(),
    ensures
        list_resumes(v, loaded).contains(t),
{
    let left = dropped(v, unloaded_threads(v, loaded));
    lemma_resumes(loaded, left.resolve, left.resumed, v.pending);
    lemma_filter_members(v.threads, |t: Seq<char>| !loaded.contains(t));
}

/// The resumes are numbered one after the other, and each is awaited as that of its own
/// thread; what was awaited before stays so.
pub proof fn law_resumes_are_numbered(
    pending: Map<i64, PendingView>,
    id: i64,
    threads: Seq<Seq<char>>,
    now: u64,
    i: int,
    before: i64,
)
    requires
        0 <= i < threads.len(),
        0 <= id,
        id + threads.len() <= i64::MAX,
        before <= id,
    ensures
        with_resumes(pending, id, threads, now).contains_key((id + i + 1) as i64),
        with_resumes(pending, id, threads, now)[(id + i + 1) as i64] == (PendingView::Resume {
            thread_id: threads[i],
            session: threads[i],
            sent_at: now,
        }),
        with_resumes(pending, id, threads, now).contains_key(before) == pending.contains_key(
            before,
        ),
        pending.contains_key(before) ==> with_resumes(pending, id, threads, now)[before]
            == pending[before],
    decreases threads.len(),
{
    let front = threads.drop_last();
    if i < front.len() {
        law_resumes_are_numbered(pending, id, front, now, i, before);
    } else if front.len() > 0 {
        law_resumes_are_numbered(pending, id, front, now, 0, before);
    } else {
        assert(with_resumes(pending, id, front, now) == pending);
    }
}

/// A thread that is dropped leaves nothing behind, and every other thread stays as it is.
pub proof fn law_dropped_threads_leave_nothing(
    v: AttachedView,
    gone: Seq<Seq<char>>,
    t: Seq<char>,
    item: Seq<char>,
)
    ensures
        gone.contains(t) ==> !dropped(v, gone).resumed.contains_key(t) && !dropped(
            v,
            gone,
        ).resolve.contains_key(t) && !dropped(v, gone).bufs.contains_key((t, item)),
        !gone.contains(t) ==> dropped(v, gone).resumed.contains_key(t) == v.resumed.contains_key(t)
            && dropped(v, gone).resolve.contains_key(t) == v.resolve.contains_key(t) && dropped(
            v,
            gone,
        ).bufs.contains_key((t, item)) == v.bufs.contains_key((t, item)),
        !gone.contains(t) && v.resumed.contains_key(t) ==> dropped(v, gone).resumed[t]
            == v.resumed[t],
        forgotten(v, gone).bufs == v.bufs,
{
}

/// Requests can be numbered as long as their numbers are to be had, to the last one.
pub proof fn law_numbers_run_out_at_the_end(v: AttachedView)
    ensures
        v.ids_left(i64::MAX - v.next_id),
        !v.ids_left(i64::MAX - v.next_id + 1),
{
}

/// The items with waiting text are listed in the order in which their first piece came.
pub proof fn law_items_are_listed_as_they_come(
    v: AttachedView,
    thread: Seq<char>,
    item: Seq<char>,
    text: Seq<char>,
    now: u64,
)
    requires
        v.resumed.contains_key(thread),
    ensures
        v.bufs.contains_key((thread, item)) ==> streamed(v, thread, item, text, now).0.items
            == v.items,
        !v.bufs.contains_key((thread, item)) ==> streamed(v, thread, item, text, now).0.items
            == v.items.push((thread, item)),
        turn_ended(v, thread, now).0.items == v.items,
{
}

} // verus!
