//! The sessions that the hooks have mentioned, and the launchers that wait for the
//! app-server.
//!
//! The caller holds the lock, wakes the waiters, and measures time in milliseconds.

use crate::assoc::AssocMap;
use crate::sessions::{live_keys, live_sessions, prune, session_list};
use crate::text::{copy_opt, is_blank, text_opt, texts, trim};
use vstd::prelude::*;

verus! {

/// What is known of sessions and launchers.
pub struct SessionRegistry {
    sessions: AssocMap<String, u64>,
    epoch: u64,
    launch_waiters: u64,
    launch_error_seq: u64,
    launch_error: Option<String>,
    connected_endpoint: Option<String>,
    launcher_bin: Option<String>,
}

/// A [`SessionRegistry`] as mathematical values.
#[verifier::ext_equal]
pub struct RegistryView {
    /// When each session was last mentioned.
    pub sessions: Map<Seq<char>, u64>,
    /// The sessions, in the order in which they came.
    pub order: Seq<Seq<char>>,
    /// Moves with every change that the supervisor is to see.
    pub epoch: u64,
    /// How many launchers wait.
    pub launch_waiters: u64,
    /// Moves with every failed launch.
    pub launch_error_seq: u64,
    /// What the last failed launch said.
    pub launch_error: Option<Seq<char>>,
    /// The endpoint that the observer is attached to.
    pub connected_endpoint: Option<Seq<char>>,
    /// The Codex binary that the last launcher named.
    pub launcher_bin: Option<Seq<char>>,
}

impl View for SessionRegistry {
    type V = RegistryView;

    closed spec fn view(&self) -> RegistryView {
        RegistryView {
            sessions: self.sessions@,
            order: self.sessions.keys(),
            epoch: self.epoch,
            launch_waiters: self.launch_waiters,
            launch_error_seq: self.launch_error_seq,
            launch_error: text_opt(self.launch_error),
            connected_endpoint: text_opt(self.connected_endpoint),
            launcher_bin: text_opt(self.launcher_bin),
        }
    }
}

/// How a launcher's request began.
#[derive(Debug, PartialEq, Eq)]
pub enum Ensure {
    /// The observer is attached to this endpoint already.
    Ready(String),
    /// The launcher waits; errors after this number concern it.
    Waiting { seen_error: u64 },
}

/// A registry after a hook mentioned `session`.
pub open spec fn nudged(v: RegistryView, session: Seq<char>, now: u64) -> RegistryView {
    if trim(session).len() == 0 {
        v
    } else {
        RegistryView {
            sessions: v.sessions.insert(session, now),
            order: if v.sessions.contains_key(session) {
                v.order
            } else {
                v.order.push(session)
            },
            epoch: v.epoch.wrapping_add(1),
            ..v
        }
    }
}

/// A registry after a launcher asked for the app-server: it waits, unless the observer is
/// attached.
pub open spec fn asked(v: RegistryView, bin: Seq<char>) -> RegistryView {
    let w = RegistryView { launcher_bin: Some(bin), ..v };
    if v.connected_endpoint is Some {
        w
    } else {
        RegistryView {
            launch_waiters: v.launch_waiters.saturating_add(1),
            epoch: v.epoch.wrapping_add(1),
            ..w
        }
    }
}

/// A registry after a launcher stopped waiting.
pub open spec fn served(v: RegistryView) -> RegistryView {
    RegistryView {
        launch_waiters: v.launch_waiters.saturating_sub(1),
        epoch: v.epoch.wrapping_add(1),
        ..v
    }
}

/// A registry after the observer has attached to `endpoint`, or to none.
pub open spec fn connected(v: RegistryView, endpoint: Option<Seq<char>>) -> RegistryView {
    RegistryView { connected_endpoint: endpoint, epoch: v.epoch.wrapping_add(1), ..v }
}

/// A registry after a launch has failed.
pub open spec fn failed(v: RegistryView, message: Seq<char>) -> RegistryView {
    RegistryView {
        launch_error: Some(message),
        launch_error_seq: v.launch_error_seq.wrapping_add(1),
        epoch: v.epoch.wrapping_add(1),
        ..v
    }
}

/// What a launcher that waits is told, once there is something to tell: the endpoint, the
/// failure since it began to wait, or that its time is up.
pub open spec fn outcome(v: RegistryView, seen_error: u64, timed_out: bool) -> Option<
    Result<Seq<char>, Seq<char>>,
> {
    match v.connected_endpoint {
        Some(e) => Some(Ok(e)),
        None => if v.launch_error_seq != seen_error {
            Some(
                Err(
                    match v.launch_error {
                        Some(e) => e,
                        None => "Codex app-server start failed"@,
                    },
                ),
            )
        } else if timed_out {
            Some(Err("timed out waiting for the Codex app-server"@))
        } else {
            None
        },
    }
}

/// A [`SessionRegistry::launch_outcome`] by its characters.
pub open spec fn outcome_view(r: Option<Result<String, String>>) -> Option<
    Result<Seq<char>, Seq<char>>,
> {
    match r {
        Some(Ok(e)) => Some(Ok(e@)),
        Some(Err(m)) => Some(Err(m@)),
        None => None,
    }
}

/// How often a wait looks whether the engine is stopping.
pub const SHUTDOWN_POLL: u64 = 100;

/// How long the pause between two attempts to attach is still to wait, at most
/// [`SHUTDOWN_POLL`] at a time.
pub open spec fn pause_left(
    v: RegistryView,
    running: bool,
    now: u64,
    deadline: u64,
    launch_was_requested: bool,
) -> Option<u64> {
    if !running || now >= deadline || (!launch_was_requested && v.launch_waiters > 0) {
        None
    } else if deadline - now < SHUTDOWN_POLL {
        Some((deadline - now) as u64)
    } else {
        Some(SHUTDOWN_POLL)
    }
}

impl SessionRegistry {
    /// No session is listed twice.
    pub closed spec fn wf(&self) -> bool {
        self.sessions.wf()
    }

    /// The order lists exactly the sessions, each once.
    pub proof fn lemma_order(&self)
        requires
            self.wf(),
        ensures
            self@.order.no_duplicates(),
            forall|s: Seq<char>| #[trigger]
                self@.sessions.contains_key(s) <==> self@.order.contains(s),
    {
        self.sessions.lemma_list();
    }

    /// An empty registry.
    pub fn new() -> (r: Self)
        ensures
            r.wf(),
            r@ == (RegistryView {
                sessions: Map::empty(),
                order: Seq::empty(),
                epoch: 0,
                launch_waiters: 0,
                launch_error_seq: 0,
                launch_error: None,
                connected_endpoint: None,
                launcher_bin: None,
            }),
    {
        let r = SessionRegistry {
            sessions: AssocMap::new(),
            epoch: 0,
            launch_waiters: 0,
            launch_error_seq: 0,
            launch_error: None,
            connected_endpoint: None,
            launcher_bin: None,
        };
        assert(r@.order =~= Seq::empty());
        r
    }

    /// A hook mentioned a session: it is remembered as alive, and the supervisor has
    /// something to see. A blank id is ignored.
    pub fn nudge(&mut self, session: &str, now: u64)
        requires
            old(self).wf(),
        ensures
            final(self).wf(),
            final(self)@ == nudged(old(self)@, session@, now),
    {
        if is_blank(session) {
            return;
        }
        self.sessions.insert(session.to_owned(), now);
        self.epoch = self.epoch.wrapping_add(1);
    }

    /// The sessions, and the epoch.
    pub fn snapshot(&self) -> (r: (Vec<String>, u64))
        requires
            self.wf(),
        ensures
            texts(r.0@) == self@.order,
            r.1 == self@.epoch,
    {
        (session_list(&self.sessions), self.epoch)
    }

    /// A launcher asks for the app-server, naming its Codex binary. Where the observer
    /// is attached, its endpoint is the answer; else the launcher waits, which asks
    /// the supervisor to start one.
    pub fn ensure_remote(&mut self, bin: &str) -> (r: Ensure)
        requires
            old(self).wf(),
        ensures
            final(self).wf(),
            final(self)@ == asked(old(self)@, bin@),
            match old(self)@.connected_endpoint {
                Some(e) => r matches Ensure::Ready(endpoint) && endpoint@ == e,
                None => r == (Ensure::Waiting { seen_error: old(self)@.launch_error_seq }),
            },
    {
        self.launcher_bin = Some(bin.to_owned());
        match &self.connected_endpoint {
            Some(e) => Ensure::Ready(e.as_str().to_owned()),
            None => {
                self.launch_waiters = self.launch_waiters.saturating_add(1);
                self.epoch = self.epoch.wrapping_add(1);
                Ensure::Waiting { seen_error: self.launch_error_seq }
            },
        }
    }

    /// What a waiting launcher is told, once there is something to tell: the endpoint,
    /// the failure since it began to wait, or that its time is up.
    pub fn launch_outcome(&self, seen_error: u64, timed_out: bool) -> (r: Option<
        Result<String, String>,
    >)
        ensures
            outcome_view(r) == outcome(self@, seen_error, timed_out),
    {
        match &self.connected_endpoint {
            Some(e) => Some(Ok(e.as_str().to_owned())),
            None => if self.launch_error_seq != seen_error {
                match &self.launch_error {
                    Some(m) => Some(Err(m.as_str().to_owned())),
                    None => Some(Err("Codex app-server start failed".to_owned())),
                }
            } else if timed_out {
                Some(Err("timed out waiting for the Codex app-server".to_owned()))
            } else {
                None
            },
        }
    }

    /// A launcher no longer waits.
    pub fn launch_done(&mut self)
        requires
            old(self).wf(),
        ensures
            final(self).wf(),
            final(self)@ == served(old(self)@),
    {
        self.launch_waiters = self.launch_waiters.saturating_sub(1);
        self.epoch = self.epoch.wrapping_add(1);
    }

    /// Whether a launcher waits.
    pub fn launch_requested(&self) -> (r: bool)
        ensures
            r == (self@.launch_waiters > 0),
    {
        self.launch_waiters > 0
    }

    /// The Codex binary that the last launcher named.
    pub fn launcher_bin(&self) -> (r: Option<String>)
        ensures
            text_opt(r) == self@.launcher_bin,
    {
        copy_opt(&self.launcher_bin)
    }

    /// The observer has attached to `endpoint`.
    pub fn launch_ready(&mut self, endpoint: String)
        requires
            old(self).wf(),
        ensures
            final(self).wf(),
            final(self)@ == connected(old(self)@, Some(endpoint@)),
    {
        self.connected_endpoint = Some(endpoint);
        self.epoch = self.epoch.wrapping_add(1);
    }

    /// The observer has detached.
    pub fn launch_detached(&mut self)
        requires
            old(self).wf(),
        ensures
            final(self).wf(),
            final(self)@ == connected(old(self)@, None),
    {
        self.connected_endpoint = None;
        self.epoch = self.epoch.wrapping_add(1);
    }

    /// A launch has failed: whoever waits is told why.
    pub fn launch_failed(&mut self, message: String)
        requires
            old(self).wf(),
        ensures
            final(self).wf(),
            final(self)@ == failed(old(self)@, message@),
    {
        self.launch_error = Some(message);
        self.launch_error_seq = self.launch_error_seq.wrapping_add(1);
        self.epoch = self.epoch.wrapping_add(1);
    }

    /// Whether a wait for the epoch to move past `seen` is over, and the epoch then:
    /// it is once the epoch has moved or the time is up.
    pub fn wait_change(&self, seen: u64, timed_out: bool) -> (r: Option<u64>)
        ensures
            r == (if self@.epoch != seen || timed_out {
                Some(self@.epoch)
            } else {
                None
            }),
    {
        if self.epoch != seen || timed_out {
            Some(self.epoch)
        } else {
            None
        }
    }

    /// How long the pause between two attempts to attach is still to wait, at most
    /// [`SHUTDOWN_POLL`] at a time. It is over when the engine stops, the time is up,
    /// or a launcher has come that was not waiting when the pause began. Sessions that
    /// are mentioned do not end it.
    pub fn wait_retry(&self, running: bool, now: u64, deadline: u64, launch_was_requested: bool)
        -> (r: Option<u64>)
        ensures
            r == pause_left(self@, running, now, deadline, launch_was_requested),
    {
        if !running || now >= deadline || (!launch_was_requested && self.launch_waiters > 0) {
            None
        } else if deadline - now < SHUTDOWN_POLL {
            Some(deadline - now)
        } else {
            Some(SHUTDOWN_POLL)
        }
    }

    /// Forgets a session.
    pub fn remove(&mut self, session: &str)
        requires
            old(self).wf(),
        ensures
            final(self).wf(),
            final(self)@ == (RegistryView {
                sessions: old(self)@.sessions.remove(session@),
                order: crate::seqs::filter_out(old(self)@.order, session@),
                ..old(self)@
            }),
    {
        let _ = self.sessions.remove(&session.to_owned());
    }

    /// Forgets the sessions that were not mentioned within `ttl`.
    pub fn prune_older_than(&mut self, now: u64, ttl: u64)
        requires
            old(self).wf(),
        ensures
            final(self).wf(),
            final(self)@ == (RegistryView {
                sessions: live_sessions(old(self)@.sessions, now, ttl),
                order: live_keys(old(self)@.order, old(self)@.sessions, now, ttl),
                ..old(self)@
            }),
    {
        prune(&mut self.sessions, now, ttl);
    }
}

/// The Codex binary to start: the one that a launcher named, else the one that was
/// found.
pub fn resolve_launch_bin(launcher: Option<String>, found: Option<String>) -> (r: Option<String>)
    ensures
        r == (if launcher is Some {
            launcher
        } else {
            found
        }),
{
    match launcher {
        Some(bin) => Some(bin),
        None => found,
    }
}

/// The pause between two attempts to attach; see [`SessionRegistry::wait_retry`].
pub fn pace(
    registry: &SessionRegistry,
    running: bool,
    now: u64,
    deadline: u64,
    launch_was_requested: bool,
) -> (r: Option<u64>)
    ensures
        r == pause_left(registry@, running, now, deadline, launch_was_requested),
{
    registry.wait_retry(running, now, deadline, launch_was_requested)
}

// ── Laws ─────────────────────────────────────────────────────────────────────

/// Every mention of a session moves the epoch, also of one that is known, and makes
/// the session outlive any pruning with a time to live at that moment.
pub proof fn law_mention_wakes_and_keeps(v: RegistryView, session: Seq<char>, now: u64, ttl: u64)
    requires
        trim(session).len() > 0,
    ensures
        nudged(v, session, now).epoch != v.epoch,
        live_sessions(nudged(v, session, now).sessions, now, ttl).contains_key(session),
{
}

/// A mention keeps what is known of the other sessions and of the launchers.
pub proof fn law_mention_touches_one_session(
    v: RegistryView,
    session: Seq<char>,
    now: u64,
    other: Seq<char>,
)
    requires
        other != session,
    ensures
        nudged(v, session, now).sessions.contains_key(other) == v.sessions.contains_key(other),
        v.sessions.contains_key(other) ==> nudged(v, session, now).sessions[other]
            == v.sessions[other],
        nudged(v, session, now).launch_waiters == v.launch_waiters,
        nudged(v, session, now).connected_endpoint == v.connected_endpoint,
        nudged(v, session, now).launch_error_seq == v.launch_error_seq,
{
}

/// A launcher that waits hears of what comes after it began to wait, and of nothing that
/// came before: an earlier failure leaves it waiting, a later one or an attachment ends
/// its wait, and so does its time.
pub proof fn law_launcher_hears_what_comes_after(
    v: RegistryView,
    bin: Seq<char>,
    message: Seq<char>,
    endpoint: Seq<char>,
)
    requires
        v.connected_endpoint is None,
    ensures
        ({
            let w = asked(v, bin);
            let seen = v.launch_error_seq;
            &&& outcome(w, seen, false) is None
            &&& outcome(failed(w, message), seen, false)
                == Some(Err::<Seq<char>, Seq<char>>(message))
            &&& outcome(connected(w, Some(endpoint)), seen, false)
                == Some(Ok::<Seq<char>, Seq<char>>(endpoint))
            &&& outcome(w, seen, true) is Some
        }),
{
}

/// Launchers share one attachment: while the observer is attached, a launcher is told so
/// at once, whatever failed before, and does not wait.
pub proof fn law_launchers_share_the_attachment(
    v: RegistryView,
    bin: Seq<char>,
    endpoint: Seq<char>,
    seen_error: u64,
    timed_out: bool,
)
    ensures
        ({
            let w = asked(connected(v, Some(endpoint)), bin);
            &&& w.launch_waiters == v.launch_waiters
            &&& outcome(w, seen_error, timed_out) == Some(Ok::<Seq<char>, Seq<char>>(endpoint))
        }),
{
}

/// The supervisor sees a launcher while it waits, and not longer: its request wakes the
/// supervisor, cuts the pause of one that did not expect it, and is gone once the
/// launcher is served.
pub proof fn law_waiting_launcher_is_seen(
    v: RegistryView,
    bin: Seq<char>,
    now: u64,
    deadline: u64,
)
    requires
        v.connected_endpoint is None,
        v.launch_waiters < u64::MAX,
    ensures
        asked(v, bin).epoch != v.epoch,
        asked(v, bin).launch_waiters > 0,
        pause_left(asked(v, bin), true, now, deadline, false) is None,
        served(asked(v, bin)).launch_waiters == v.launch_waiters,
        served(asked(v, bin)).sessions == v.sessions,
{
}

/// A session that is mentioned is known as of then, after those that were known before; a
/// blank name is nothing.
pub proof fn law_mention_is_remembered(v: RegistryView, session: Seq<char>, now: u64)
    ensures
        trim(session).len() == 0 ==> nudged(v, session, now) == v,
        trim(session).len() > 0 ==> {
            let w = nudged(v, session, now);
            &&& w.sessions.contains_key(session) && w.sessions[session] == now
            &&& v.sessions.contains_key(session) ==> w.order == v.order
            &&& !v.sessions.contains_key(session) ==> w.order == v.order.push(session)
        },
{
}

/// What a launcher is told while it waits: the endpoint comes before any failure, a failure
/// before the end of its time, with the failure's own words where there are any; and every
/// change is seen by who waits.
pub proof fn law_what_a_launcher_is_told(
    v: RegistryView,
    endpoint: Seq<char>,
    message: Seq<char>,
    seen: u64,
)
    ensures
        ({
            let there = RegistryView { connected_endpoint: Some(endpoint), ..v };
            let broken = RegistryView {
                connected_endpoint: None,
                launch_error: Some(message),
                ..v
            };
            let silent = RegistryView { connected_endpoint: None, launch_error: None, ..v };
            &&& outcome(there, seen, true) == Some(Ok::<Seq<char>, Seq<char>>(endpoint))
            &&& v.launch_error_seq != seen ==> outcome(broken, seen, true)
                == Some(Err::<Seq<char>, Seq<char>>(message))
            &&& v.launch_error_seq != seen ==> outcome(silent, seen, true)
                == Some(Err::<Seq<char>, Seq<char>>("Codex app-server start failed"@))
            &&& v.launch_error_seq == seen ==> outcome(broken, seen, true)
                == Some(
                Err::<Seq<char>, Seq<char>>("timed out waiting for the Codex app-server"@),
            ) && outcome(broken, seen, false) is None
        }),
        connected(v, Some(endpoint)).connected_endpoint == Some(endpoint),
        connected(v, None).connected_endpoint is None,
        connected(v, None).epoch != v.epoch,
        failed(v, message).launch_error == Some(message),
        failed(v, message).launch_error_seq != v.launch_error_seq,
        failed(v, message).epoch != v.epoch,
        failed(v, message).connected_endpoint == v.connected_endpoint,
        served(v).epoch != v.epoch,
        v.launch_waiters > 0 ==> served(v).launch_waiters == v.launch_waiters - 1,
{
}

/// A launcher names the program that is to be started; the last one counts.
pub proof fn law_last_launcher_names_the_program(v: RegistryView, a: Seq<char>, b: Seq<char>)
    ensures
        asked(v, a).launcher_bin == Some(a),
        asked(asked(v, a), b).launcher_bin == Some(b),
        asked(v, a).sessions == v.sessions && asked(v, a).connected_endpoint
            == v.connected_endpoint,
        v.connected_endpoint is None && v.launch_waiters < u64::MAX ==> asked(v, a).launch_waiters
            == v.launch_waiters + 1,
{
}

/// A pause lasts until its end, in looks of a tenth of a second at most; it ends at once
/// when the engine stops or a launcher comes that was not there when it began.
pub proof fn law_how_long_a_pause_lasts(v: RegistryView, now: u64, deadline: u64, asked_before: bool)
    ensures
        pause_left(v, false, now, deadline, asked_before) is None,
        now >= deadline ==> pause_left(v, true, now, deadline, asked_before) is None,
        !asked_before && v.launch_waiters > 0 ==> pause_left(v, true, now, deadline, asked_before)
            is None,
        now < deadline && (asked_before || v.launch_waiters == 0) ==> pause_left(
            v,
            true,
            now,
            deadline,
            asked_before,
        ) == Some(
            if deadline - now < 100 {
                (deadline - now) as u64
            } else {
                100
            },
        ),
{
}

} // verus!
