//! The Grok sessions that the hooks have mentioned.
//!
//! The caller holds the lock, wakes the waiters, and measures time in milliseconds.

use crate::assoc::AssocMap;
use crate::seqs::filter_out;
use crate::sessions::{live_keys, live_sessions, prune, session_list};
use crate::text::{is_blank, texts, trim};
use vstd::prelude::*;

verus! {

/// The sessions, and when each was last mentioned.
pub struct SessionRegistry {
    sessions: AssocMap<String, u64>,
    epoch: u64,
}

/// A [`SessionRegistry`] as mathematical values.
#[verifier::ext_equal]
pub struct RegistryView {
    /// When each session was last mentioned.
    pub sessions: Map<Seq<char>, u64>,
    /// The sessions, in the order in which they came.
    pub order: Seq<Seq<char>>,
    /// Moves with every change.
    pub epoch: u64,
}

impl View for SessionRegistry {
    type V = RegistryView;

    closed spec fn view(&self) -> RegistryView {
        RegistryView {
            sessions: self.sessions@,
            order: self.sessions.keys(),
            epoch: self.epoch,
        }
    }
}

/// A registry after a hook mentioned `session`.
pub open spec fn nudged(v: RegistryView, session: Seq<char>, now: u64) -> RegistryView {
    if trim(session).len() == 0 {
        v
    } else {
        RegistryView {
            sessions: v.sessions.insert(session, now),
            order: if v.sessions.contains_key(session) {
                v.order
            } else {
                v.order.push(session)
            },
            epoch: v.epoch.wrapping_add(1),
        }
    }
}

/// A registry after `session` has ended.
pub open spec fn forgotten(v: RegistryView, session: Seq<char>) -> RegistryView {
    if v.sessions.contains_key(session) {
        RegistryView {
            sessions: v.sessions.remove(session),
            order: filter_out(v.order, session),
            epoch: v.epoch.wrapping_add(1),
        }
    } else {
        v
    }
}

/// A registry without the sessions that were not mentioned within `ttl`.
pub open spec fn pruned(v: RegistryView, now: u64, ttl: u64) -> RegistryView {
    let order = live_keys(v.order, v.sessions, now, ttl);
    RegistryView {
        sessions: live_sessions(v.sessions, now, ttl),
        order,
        epoch: if order.len() == v.order.len() {
            v.epoch
        } else {
            v.epoch.wrapping_add(1)
        },
    }
}

impl SessionRegistry {
    /// No session is listed twice.
    pub closed spec fn wf(&self) -> bool {
        self.sessions.wf()
    }

    /// The order lists exactly the sessions, each once.
    pub proof fn lemma_order(&self)
        requires
            self.wf(),
        ensures
            self@.order.no_duplicates(),
            forall|s: Seq<char>| #[trigger]
                self@.sessions.contains_key(s) <==> self@.order.contains(s),
    {
        self.sessions.lemma_list();
    }

    /// An empty registry.
    pub fn new() -> (r: Self)
        ensures
            r.wf(),
            r@ == (RegistryView { sessions: Map::empty(), order: Seq::empty(), epoch: 0 }),
    {
        let r = SessionRegistry { sessions: AssocMap::new(), epoch: 0 };
        assert(r@.order =~= Seq::empty());
        r
    }

    /// A hook mentioned a session: it is remembered as alive, and the supervisor has
    /// something to see. A blank id is ignored.
    pub fn nudge(&mut self, session: &str, now: u64)
        requires
            old(self).wf(),
        ensures
            final(self).wf(),
            final(self)@ == nudged(old(self)@, session@, now),
    {
        if is_blank(session) {
            return;
        }
        self.sessions.insert(session.to_owned(), now);
        self.epoch = self.epoch.wrapping_add(1);
    }

    /// A session has ended.
    pub fn forget(&mut self, session: &str)
        requires
            old(self).wf(),
        ensures
            final(self).wf(),
            final(self)@ == forgotten(old(self)@, session@),
    {
        let key = session.to_owned();
        if self.sessions.contains(&key) {
            let _ = self.sessions.remove(&key);
            self.epoch = self.epoch.wrapping_add(1);
        }
    }

    /// The sessions, and the epoch.
    pub fn snapshot(&self) -> (r: (Vec<String>, u64))
        requires
            self.wf(),
        ensures
            texts(r.0@) == self@.order,
            r.1 == self@.epoch,
    {
        (session_list(&self.sessions), self.epoch)
    }

    /// Whether a wait for the epoch to move past `seen` is over, and the epoch then:
    /// it is once the epoch has moved or the time is up.
    pub fn wait_change(&self, seen: u64, timed_out: bool) -> (r: Option<u64>)
        ensures
            r == (if self@.epoch != seen || timed_out {
                Some(self@.epoch)
            } else {
                None
            }),
    {
        if self.epoch != seen || timed_out {
            Some(self.epoch)
        } else {
            None
        }
    }

    /// Forgets the sessions that were not mentioned within `ttl`.
    pub fn prune_older_than(&mut self, now: u64, ttl: u64)
        requires
            old(self).wf(),
        ensures
            final(self).wf(),
            final(self)@ == pruned(old(self)@, now, ttl),
    {
        let before: usize = self.sessions.len();
        prune(&mut self.sessions, now, ttl);
        if self.sessions.len() != before {
            self.epoch = self.epoch.wrapping_add(1);
        }
    }

    /// How many sessions there are.
    pub fn len(&self) -> (r: usize)
        ensures
            r == self@.order.len(),
    {
        self.sessions.len()
    }

    /// Whether a session is registered.
    pub fn contains(&self, session: &str) -> (r: bool)
        requires
            self.wf(),
        ensures
            r == self@.sessions.contains_key(session@),
    {
        self.sessions.contains(&session.to_owned())
    }
}

/// A session that has ended is gone until it is mentioned again, and every other
/// session stays as it was.
pub proof fn law_forgetting_takes_one_session(v: RegistryView, session: Seq<char>, other: Seq<char>)
    requires
        other != session,
    ensures
        !forgotten(v, session).sessions.contains_key(session),
        forgotten(v, session).sessions.contains_key(other) == v.sessions.contains_key(other),
        v.sessions.contains_key(other) ==> forgotten(v, session).sessions[other]
            == v.sessions[other],
{
}

/// The supervisor has something to see exactly where the set of sessions, or the time
/// of a mention, can have changed: with every mention, and with every session that
/// goes.
pub proof fn law_changes_wake(v: RegistryView, session: Seq<char>, now: u64)
    ensures
        nudged(v, session, now).epoch == v.epoch <==> trim(session).len() == 0,
        forgotten(v, session).epoch == v.epoch <==> !v.sessions.contains_key(session),
{
}

/// A session that is mentioned is known from then on, as of the time of the mention, and
/// comes after those that were known before; a blank name is nothing. Other sessions stay
/// as they are.
pub proof fn law_mention_is_remembered(
    v: RegistryView,
    session: Seq<char>,
    other: Seq<char>,
    now: u64,
)
    requires
        other != session,
    ensures
        trim(session).len() == 0 ==> nudged(v, session, now) == v,
        trim(session).len() > 0 ==> {
            let w = nudged(v, session, now);
            &&& w.sessions.contains_key(session) && w.sessions[session] == now
            &&& w.sessions.contains_key(other) == v.sessions.contains_key(other)
            &&& v.sessions.contains_key(other) ==> w.sessions[other] == v.sessions[other]
            &&& v.sessions.contains_key(session) ==> w.order == v.order
            &&& !v.sessions.contains_key(session) ==> w.order == v.order.push(session)
            &&& w.epoch != v.epoch
        },
{
}

/// A session stays known as long as it was mentioned within its time, and the supervisor
/// has something to see when one goes.
pub proof fn law_old_sessions_go(v: RegistryView, session: Seq<char>, now: u64, ttl: u64)
    ensures
        pruned(v, now, ttl).sessions.contains_key(session) <==> v.sessions.contains_key(session)
            && now <= v.sessions[session] + ttl,
        pruned(v, now, ttl).sessions.contains_key(session) ==> pruned(
            v,
            now,
            ttl,
        ).sessions[session] == v.sessions[session],
        v.order.contains(session) && now > v.sessions[session] + ttl ==> pruned(v, now, ttl).epoch
            != v.epoch && !pruned(v, now, ttl).order.contains(session),
        (forall|s: Seq<char>|
            v.order.contains(s) ==> now <= #[trigger] v.sessions[s] + ttl) ==> pruned(
            v,
            now,
            ttl,
        ).order == v.order && pruned(v, now, ttl).epoch == v.epoch,
{
    let live = |s: Seq<char>| now.saturating_sub(v.sessions[s]) <= ttl;
    crate::seqs::lemma_filter_members(v.order, live);
    if v.order.contains(session) && now > v.sessions[session] + ttl {
        lemma_filter_shrinks(v.order, live, session);
    }
    if forall|s: Seq<char>| v.order.contains(s) ==> now <= #[trigger] v.sessions[s] + ttl {
        assert forall|i: int| 0 <= i < v.order.len() implies live(#[trigger] v.order[i]) by {
            assert(v.order.contains(v.order[i]));
        }
        crate::seqs::lemma_filter_all(v.order, live);
    }
}

proof fn lemma_filter_shrinks(s: Seq<Seq<char>>, p: spec_fn(Seq<char>) -> bool, x: Seq<char>)
    requires
        s.contains(x),
        !p(x),
    ensures
        s.filter(p).len() < s.len(),
    decreases s.len(),
{
    reveal(Seq::filter);
    let t = s.drop_last();
    t.lemma_filter_len(p);
    if s.last() != x {
        let i = choose|i: int| 0 <= i < s.len() && s[i] == x;
        assert(t[i] == x);
        lemma_filter_shrinks(t, p, x);
    }
}

} // verus!
