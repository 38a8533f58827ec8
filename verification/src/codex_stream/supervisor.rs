//! The decisions of the loop that keeps the observer attached: when to park, when to
//! start a server, when to stop the one that the engine owns, and how long to wait
//! before the next attempt.
//!
//! The caller connects, starts and stops processes, and waits; times are in
//! milliseconds.

use crate::codex_stream::attached::Detach;
use crate::codex_stream::endpoint::should_start_unix_server;
use crate::text::{copy_opt, debug_quoted, join3, quoted, same_text, str_opt, text_opt};
use vstd::prelude::*;

verus! {

/// The shortest pause between two attempts to attach.
pub const BACKOFF_FLOOR: u64 = 1_000;

/// The longest pause between two attempts to attach.
pub const BACKOFF_CEIL: u64 = 30_000;

/// The pause while a launcher waits for the server to come up.
pub const LAUNCH_RETRY_DELAY: u64 = 100;

/// How long an attachment must have held for its loss to be tried again promptly. A
/// peer that accepts and then drops the connection is paced like one that does not
/// answer.
pub const STABLE_ATTACH: u64 = 60_000;

/// The least time between two starts of a server.
pub const SERVER_START_MIN_GAP: u64 = 60_000;

/// The pause after a launcher was refused.
pub const REFUSED_WAIT: u64 = 100;

/// The pause of a parked supervisor.
pub const PARKED_WAIT: u64 = 5_000;

/// The pause while the configured address is not acceptable.
pub const BAD_ENDPOINT_WAIT: u64 = 30_000;

/// The next pause: the shortest after the loss of a stable attachment, else twice the
/// last one, up to the longest.
pub open spec fn stepped_backoff(stable: bool, backoff: u64) -> u64 {
    if stable {
        BACKOFF_FLOOR
    } else if 2 * backoff < BACKOFF_CEIL {
        (2 * backoff) as u64
    } else {
        BACKOFF_CEIL
    }
}

/// The next pause: the shortest after the loss of a stable attachment, else twice the
/// last one, up to the longest.
pub fn next_backoff(stable_attachment: bool, backoff: u64) -> (r: u64)
    ensures
        r == stepped_backoff(stable_attachment, backoff),
{
    if stable_attachment {
        BACKOFF_FLOOR
    } else if backoff < BACKOFF_CEIL / 2 {
        backoff * 2
    } else {
        BACKOFF_CEIL
    }
}

/// The pause to make: a launcher that waits shortens it.
pub open spec fn paced(backoff: u64, launch_requested: bool) -> u64 {
    if launch_requested && LAUNCH_RETRY_DELAY < backoff {
        LAUNCH_RETRY_DELAY
    } else {
        backoff
    }
}

/// The pause to make: a launcher that waits shortens it.
pub fn retry_delay(backoff: u64, launch_requested: bool) -> (r: u64)
    ensures
        r == paced(backoff, launch_requested),
{
    if launch_requested && LAUNCH_RETRY_DELAY < backoff {
        LAUNCH_RETRY_DELAY
    } else {
        backoff
    }
}

/// Whether there is nothing to do: streaming is off, Codex is not there, or there is no
/// session and nothing asks for a server. A server that is to be started must not wait
/// for a session, which could not begin without it.
pub open spec fn parks(
    stream_enabled: bool,
    codex_present: bool,
    have_sessions: bool,
    auto_start: bool,
) -> bool {
    !stream_enabled || !codex_present || (!have_sessions && !auto_start)
}

/// Whether there is nothing to do; see [`parks`].
pub fn should_park_supervisor(
    stream_enabled: bool,
    codex_present: bool,
    have_sessions: bool,
    auto_start: bool,
) -> (r: bool)
    ensures
        r == parks(stream_enabled, codex_present, have_sessions, auto_start),
{
    !stream_enabled || !codex_present || (!have_sessions && !auto_start)
}

/// What a look at the engine's own server showed.
#[derive(Debug, PartialEq, Eq)]
pub enum OwnedProbe {
    /// It runs.
    Running,
    /// It has exited, with this status.
    Exited(String),
    /// It could not be looked at, for this reason.
    Failed(String),
}

/// What the loop knows when a pass begins.
#[derive(Debug, Clone, Copy, PartialEq, Eq, Structural)]
pub struct Conditions {
    /// Streaming is switched on.
    pub stream: bool,
    /// A server is to be kept running.
    pub daemon: bool,
    /// Codex's directory is there.
    pub codex_present: bool,
    /// A session has been mentioned.
    pub have_sessions: bool,
    /// A launcher waits.
    pub launch_requested: bool,
}

/// Why a launcher is refused.
#[derive(Debug, Clone, Copy, PartialEq, Eq, Structural)]
pub enum Refusal {
    /// Streaming is switched off.
    StreamOff,
    /// Codex is not there.
    NotInstalled,
    /// The configured address is not acceptable.
    BadEndpoint,
}

/// What a launcher is told on a refusal.
pub open spec fn refusal_text(reason: Refusal) -> Seq<char> {
    match reason {
        Refusal::StreamOff =>
            "Codex streaming is disabled; enable `codex_stream` in DontSpeak config"@,
        Refusal::NotInstalled => "Codex is not installed or its config directory is missing"@,
        Refusal::BadEndpoint =>
            "codex_app_server_url must be an unauthenticated loopback ws:// endpoint"@,
    }
}

/// What a launcher is told on a refusal.
pub fn refusal_message(reason: Refusal) -> (r: String)
    ensures
        r@ == refusal_text(reason),
{
    match reason {
        Refusal::StreamOff =>
            "Codex streaming is disabled; enable `codex_stream` in DontSpeak config".to_owned(),
        Refusal::NotInstalled =>
            "Codex is not installed or its config directory is missing".to_owned(),
        Refusal::BadEndpoint =>
            "codex_app_server_url must be an unauthenticated loopback ws:// endpoint".to_owned(),
    }
}

/// What a launcher is told when the binary is not found.
pub fn missing_bin_message(cfg_bin: &str) -> (r: String)
    ensures
        r@ == "Codex executable "@ + debug_quoted(cfg_bin@)
            + " was not found; set codex_bin to its full path"@,
{
    let q = quoted(cfg_bin);
    join3("Codex executable ", q.as_str(), " was not found; set codex_bin to its full path")
}

/// What a pass begins with.
#[derive(Debug, Clone, Copy, PartialEq, Eq, Structural)]
pub enum GateStep {
    /// The waiting launcher is refused.
    Refuse(Refusal),
    /// There is nothing to do. `stopped`: the engine's server is to be stopped.
    Park { stopped: bool },
    /// Attach. `stopped`: the engine's server is to be stopped; `force_start`: one is to
    /// be started where none answers.
    Attach { stopped: bool, force_start: bool },
}

/// What follows from the endpoint that is configured.
#[derive(Debug, Clone, Copy, PartialEq, Eq, Structural)]
pub struct EndpointStep {
    /// The engine's server is to be stopped: it serves another endpoint.
    pub stopped: bool,
    /// The waiting launcher is refused.
    pub refuse: bool,
    /// There is nothing to attach to.
    pub park: bool,
}

/// What the loop knows when the connection was refused.
#[derive(Debug, Clone, Copy, PartialEq, Eq, Structural)]
pub struct ConnectFailure {
    /// A server is to be started where none answers.
    pub force_start: bool,
    /// A launcher waits.
    pub launch_requested: bool,
    /// Nobody serves the endpoint; for an address, that it is on this machine.
    pub startable: bool,
    /// The binary was found.
    pub bin_found: bool,
    /// The time.
    pub now: u64,
}

/// What to do when the connection was refused.
#[derive(Debug, Clone, Copy, PartialEq, Eq, Structural)]
pub struct StartPlan {
    /// The waiting launcher is told that the binary is missing.
    pub fail_launch: bool,
    /// The log says that the binary is missing.
    pub warn: bool,
    /// The server is started.
    pub start: bool,
    /// The log says that no server is started on another machine.
    pub refuse_remote: bool,
}

/// How an attempt to attach ended.
#[derive(Debug, Clone, Copy, PartialEq, Eq, Structural)]
pub enum Outcome {
    /// The observer let go.
    Detached(Detach),
    /// The connection was lost.
    Lost,
    /// There was no connection.
    Unattached,
}

/// What follows an attempt.
#[derive(Debug, Clone, Copy, PartialEq, Eq, Structural)]
pub enum After {
    /// The loop ends.
    Stop,
    /// The next pass begins at once.
    Again,
    /// The next pass begins after a pause.
    Pause(u64),
}

/// What the loop remembers from pass to pass.
pub struct Supervisor {
    backoff: u64,
    epoch: u64,
    last_server_start: Option<u64>,
    launch_kept_warm: bool,
    warned_bin_unresolvable: bool,
    owned: Option<String>,
}

/// A [`Supervisor`] as a mathematical value.
#[verifier::ext_equal]
pub struct SupervisorView {
    /// The last pause.
    pub backoff: u64,
    /// The epoch that was last seen.
    pub epoch: u64,
    /// When a server was last started.
    pub last_server_start: Option<u64>,
    /// A launcher has asked for the server, which is kept from then on: the next
    /// launcher shall not meet its end.
    pub launch_kept_warm: bool,
    /// The log has said that the binary is missing.
    pub warned_bin_unresolvable: bool,
    /// The endpoint of the server that the engine owns.
    pub owned: Option<Seq<char>>,
}

impl View for Supervisor {
    type V = SupervisorView;

    closed spec fn view(&self) -> SupervisorView {
        SupervisorView {
            backoff: self.backoff,
            epoch: self.epoch,
            last_server_start: self.last_server_start,
            launch_kept_warm: self.launch_kept_warm,
            warned_bin_unresolvable: self.warned_bin_unresolvable,
            owned: text_opt(self.owned),
        }
    }
}

/// The pause stays between its bounds.
pub open spec fn backoff_bounded(v: SupervisorView) -> bool {
    BACKOFF_FLOOR <= v.backoff <= BACKOFF_CEIL
}

/// Whether a server is to be started where none answers.
pub open spec fn wants_server(v: SupervisorView, c: Conditions) -> bool {
    c.daemon || v.launch_kept_warm || c.launch_requested
}

/// How a pass begins, and what is remembered then.
pub open spec fn gated(v: SupervisorView, c: Conditions) -> (SupervisorView, GateStep) {
    if c.launch_requested && !c.stream {
        (v, GateStep::Refuse(Refusal::StreamOff))
    } else if c.launch_requested && !c.codex_present {
        (v, GateStep::Refuse(Refusal::NotInstalled))
    } else {
        let parked = parks(c.stream, c.codex_present, c.have_sessions, wants_server(v, c));
        let stopped = v.owned is Some && (parked || !wants_server(v, c));
        let w = SupervisorView {
            owned: if stopped {
                None
            } else {
                v.owned
            },
            ..v
        };
        if parked {
            (w, GateStep::Park { stopped })
        } else {
            (w, GateStep::Attach { stopped, force_start: wants_server(v, c) })
        }
    }
}

/// What is remembered once the endpoint was resolved: the engine's server stays only where
/// it serves that endpoint.
pub open spec fn routed(v: SupervisorView, key: Option<Seq<char>>) -> SupervisorView {
    SupervisorView {
        owned: if v.owned == key {
            v.owned
        } else {
            None
        },
        ..v
    }
}

/// Whether a server was started too short a time ago.
pub open spec fn throttled(v: SupervisorView, now: u64) -> bool {
    v.last_server_start is Some && now.saturating_sub(v.last_server_start->0)
        < SERVER_START_MIN_GAP
}

/// What to do when nobody answers on the control socket, and what is remembered then.
pub open spec fn unix_plan(v: SupervisorView, f: ConnectFailure) -> (SupervisorView, StartPlan) {
    let missing = f.force_start && f.startable && !f.bin_found;
    let found = f.force_start && f.bin_found;
    let start = !throttled(v, f.now) && found && f.startable && v.owned is None;
    (
        SupervisorView {
            warned_bin_unresolvable: if missing {
                true
            } else if found {
                false
            } else {
                v.warned_bin_unresolvable
            },
            last_server_start: if start {
                Some(f.now)
            } else {
                v.last_server_start
            },
            ..v
        },
        StartPlan {
            fail_launch: missing && f.launch_requested,
            warn: missing && !v.warned_bin_unresolvable,
            start,
            refuse_remote: false,
        },
    )
}

/// What to do when nobody answers on an address, and what is remembered then.
pub open spec fn tcp_plan(v: SupervisorView, f: ConnectFailure) -> (SupervisorView, StartPlan) {
    let wanted = f.force_start && v.owned is None && f.startable;
    let missing = wanted && !f.bin_found;
    let start = wanted && f.bin_found && !throttled(v, f.now);
    (
        SupervisorView {
            warned_bin_unresolvable: if wanted {
                missing
            } else {
                v.warned_bin_unresolvable
            },
            last_server_start: if start {
                Some(f.now)
            } else {
                v.last_server_start
            },
            ..v
        },
        StartPlan {
            fail_launch: missing && f.launch_requested,
            warn: missing && !v.warned_bin_unresolvable,
            start,
            refuse_remote: f.force_start && !f.startable,
        },
    )
}

/// The pause after an attempt, and what follows.
pub open spec fn settled(
    v: SupervisorView,
    outcome: Outcome,
    attempt: u64,
    launch_requested: bool,
) -> (SupervisorView, After) {
    let backoff = match outcome {
        Outcome::Detached(Detach::Shutdown) => v.backoff,
        Outcome::Detached(_) => BACKOFF_FLOOR,
        Outcome::Lost => stepped_backoff(attempt >= STABLE_ATTACH, v.backoff),
        Outcome::Unattached => stepped_backoff(false, v.backoff),
    };
    let after = match outcome {
        Outcome::Detached(Detach::Shutdown) => After::Stop,
        Outcome::Detached(_) => After::Again,
        _ => After::Pause(paced(backoff, launch_requested)),
    };
    (SupervisorView { backoff, ..v }, after)
}

impl Supervisor {
    /// The loop before its first pass.
    pub fn new() -> (r: Self)
        ensures
            r@ == (SupervisorView {
                backoff: BACKOFF_FLOOR,
                epoch: 0,
                last_server_start: None,
                launch_kept_warm: false,
                warned_bin_unresolvable: false,
                owned: None,
            }),
            backoff_bounded(r@),
    {
        Supervisor {
            backoff: BACKOFF_FLOOR,
            epoch: 0,
            last_server_start: None,
            launch_kept_warm: false,
            warned_bin_unresolvable: false,
            owned: None,
        }
    }

    /// The endpoint of the server that the engine owns.
    pub fn owned(&self) -> (r: Option<String>)
        ensures
            text_opt(r) == self@.owned,
    {
        copy_opt(&self.owned)
    }

    /// The engine's server was looked at. One that is gone is forgotten, and a launcher
    /// that waits for it is told why.
    pub fn probed(&mut self, probe: &OwnedProbe, launch_requested: bool) -> (r: Option<String>)
        ensures
            final(self)@ == (SupervisorView {
                owned: if probe is Running {
                    old(self)@.owned
                } else {
                    None
                },
                ..old(self)@
            }),
            text_opt(r) == (if old(self)@.owned is None || !launch_requested {
                None
            } else {
                match *probe {
                    OwnedProbe::Running => None,
                    OwnedProbe::Exited(status) => Some(
                        "engine-owned Codex app-server exited with "@ + status@
                            + " before becoming ready"@,
                    ),
                    OwnedProbe::Failed(e) => Some(
                        "could not monitor engine-owned Codex app-server: "@ + e@,
                    ),
                }
            }),
    {
        let owns = self.owned.is_some();
        match probe {
            OwnedProbe::Running => None,
            OwnedProbe::Exited(status) => {
                self.owned = None;
                if owns && launch_requested {
                    Some(
                        join3(
                            "engine-owned Codex app-server exited with ",
                            status.as_str(),
                            " before becoming ready",
                        ),
                    )
                } else {
                    None
                }
            },
            OwnedProbe::Failed(e) => {
                self.owned = None;
                if owns && launch_requested {
                    Some(
                        crate::text::join(
                            "could not monitor engine-owned Codex app-server: ",
                            e.as_str(),
                        ),
                    )
                } else {
                    None
                }
            },
        }
    }

    /// A pass begins.
    pub fn gate(&mut self, c: Conditions) -> (r: GateStep)
        ensures
            (final(self)@, r) == gated(old(self)@, c),
    {
        if c.launch_requested && !c.stream {
            return GateStep::Refuse(Refusal::StreamOff);
        }
        if c.launch_requested && !c.codex_present {
            return GateStep::Refuse(Refusal::NotInstalled);
        }
        let mut stopped = false;
        if !c.daemon && !self.launch_kept_warm && !c.launch_requested && self.owned.is_some() {
            self.owned = None;
            stopped = true;
        }
        let force_start = c.daemon || self.launch_kept_warm || c.launch_requested;
        if should_park_supervisor(c.stream, c.codex_present, c.have_sessions, force_start) {
            if self.owned.is_some() {
                self.owned = None;
                stopped = true;
            }
            GateStep::Park { stopped }
        } else {
            GateStep::Attach { stopped, force_start }
        }
    }

    /// The epoch past which a wait for the registry is over.
    pub fn wait_from(&self, current: u64) -> (r: u64)
        ensures
            r == (if current < self@.epoch {
                self@.epoch
            } else {
                current
            }),
    {
        if current < self.epoch {
            self.epoch
        } else {
            current
        }
    }

    /// The wait for the registry is over.
    pub fn woke(&mut self, epoch: u64)
        ensures
            final(self)@ == (SupervisorView { epoch, ..old(self)@ }),
    {
        self.epoch = epoch;
    }

    /// The endpoint was resolved; its key, where there is one to attach to.
    pub fn on_endpoint(&mut self, key: Option<&str>, launch_requested: bool) -> (r: EndpointStep)
        ensures
            r.stopped == (old(self)@.owned is Some && old(self)@.owned != str_opt(key)),
            r.park == (key is None),
            r.refuse == (key is None && launch_requested),
            final(self)@ == routed(old(self)@, str_opt(key)),
    {
        let stopped = match (&self.owned, key) {
            (Some(own), Some(k)) => !same_text(own.as_str(), k),
            (Some(_), None) => true,
            (None, _) => false,
        };
        if stopped {
            self.owned = None;
        }
        EndpointStep { stopped, refuse: key.is_none() && launch_requested, park: key.is_none() }
    }

    /// Whether a server was started too short a time ago.
    fn is_throttled(&self, now: u64) -> (r: bool)
        ensures
            r == throttled(self@, now),
    {
        match self.last_server_start {
            Some(at) => now.saturating_sub(at) < SERVER_START_MIN_GAP,
            None => false,
        }
    }

    /// Nobody answered on the control socket.
    pub fn unix_connect_failed(&mut self, f: ConnectFailure) -> (r: StartPlan)
        ensures
            (final(self)@, r) == unix_plan(old(self)@, f),
    {
        let bin = f.force_start && f.bin_found;
        let mut fail_launch = false;
        let mut warn = false;
        if f.force_start && f.startable && !bin {
            fail_launch = f.launch_requested;
            if !self.warned_bin_unresolvable {
                self.warned_bin_unresolvable = true;
                warn = true;
            }
        } else if bin {
            self.warned_bin_unresolvable = false;
        }
        let start = !self.is_throttled(f.now) && should_start_unix_server(
            f.force_start,
            f.startable,
            bin,
            self.owned.is_some(),
        );
        if start {
            self.last_server_start = Some(f.now);
        }
        StartPlan { fail_launch, warn, start, refuse_remote: false }
    }

    /// Nobody answered on an address.
    pub fn tcp_connect_failed(&mut self, f: ConnectFailure) -> (r: StartPlan)
        ensures
            (final(self)@, r) == tcp_plan(old(self)@, f),
    {
        let mut plan = StartPlan {
            fail_launch: false,
            warn: false,
            start: false,
            refuse_remote: false,
        };
        if f.force_start && self.owned.is_none() && f.startable {
            if f.bin_found {
                self.warned_bin_unresolvable = false;
                if !self.is_throttled(f.now) {
                    self.last_server_start = Some(f.now);
                    plan.start = true;
                }
            } else {
                plan.fail_launch = f.launch_requested;
                plan.warn = !self.warned_bin_unresolvable;
                self.warned_bin_unresolvable = true;
            }
        } else if f.force_start && !f.startable {
            plan.refuse_remote = true;
        }
        plan
    }

    /// The engine has started a server of its own on the endpoint with this key.
    pub fn server_started(&mut self, key: String)
        ensures
            final(self)@ == (SupervisorView { owned: Some(key@), ..old(self)@ }),
    {
        self.owned = Some(key);
    }

    /// The observer is attached.
    pub fn attached(&mut self, launch_requested: bool)
        ensures
            final(self)@ == (SupervisorView {
                launch_kept_warm: old(self)@.launch_kept_warm || launch_requested,
                ..old(self)@
            }),
    {
        if launch_requested {
            self.launch_kept_warm = true;
        }
    }

    /// An attempt has ended, after `attempt` milliseconds.
    pub fn settle(&mut self, outcome: Outcome, attempt: u64, launch_requested: bool) -> (r: After)
        ensures
            (final(self)@, r) == settled(old(self)@, outcome, attempt, launch_requested),
            backoff_bounded(old(self)@) ==> backoff_bounded(final(self)@),
    {
        match outcome {
            Outcome::Detached(Detach::Shutdown) => After::Stop,
            Outcome::Detached(_) => {
                self.backoff = BACKOFF_FLOOR;
                After::Again
            },
            Outcome::Lost => {
                self.backoff = next_backoff(attempt >= STABLE_ATTACH, self.backoff);
                After::Pause(retry_delay(self.backoff, launch_requested))
            },
            Outcome::Unattached => {
                self.backoff = next_backoff(false, self.backoff);
                After::Pause(retry_delay(self.backoff, launch_requested))
            },
        }
    }
}

// ── Laws ─────────────────────────────────────────────────────────────────────

/// No failure is tried again at once: every failed attempt is followed by a pause of at
/// least [`LAUNCH_RETRY_DELAY`], and without a launcher of at least [`BACKOFF_FLOOR`].
pub proof fn law_failures_never_spin(
    v: SupervisorView,
    outcome: Outcome,
    attempt: u64,
    launch_requested: bool,
)
    requires
        backoff_bounded(v),
        outcome is Lost || outcome is Unattached,
    ensures
        settled(v, outcome, attempt, launch_requested).1 matches After::Pause(d)
            && LAUNCH_RETRY_DELAY <= d <= BACKOFF_CEIL && (!launch_requested ==> d
            >= BACKOFF_FLOOR),
{
}

/// The pause after `n` failures in a row, from the shortest.
pub open spec fn backoff_after(n: nat) -> u64
    decreases n,
{
    if n == 0 {
        BACKOFF_FLOOR
    } else {
        stepped_backoff(false, backoff_after((n - 1) as nat))
    }
}

/// `n` failures in a row double the pause `n` times, up to the longest.
pub proof fn law_backoff_doubles(n: nat)
    ensures
        backoff_after(n) == (if BACKOFF_FLOOR * vstd::arithmetic::power2::pow2(n) < BACKOFF_CEIL {
            BACKOFF_FLOOR * vstd::arithmetic::power2::pow2(n)
        } else {
            BACKOFF_CEIL as int
        }),
    decreases n,
{
    if n == 0 {
        vstd::arithmetic::power2::lemma2_to64();
    } else {
        law_backoff_doubles((n - 1) as nat);
        vstd::arithmetic::power2::lemma_pow2_unfold(n);
    }
}

/// A server is started only where the engine owns none, and at least
/// [`SERVER_START_MIN_GAP`] after the last start.
pub proof fn law_server_starts_are_spaced(v: SupervisorView, f: ConnectFailure, tcp: bool)
    ensures
        ({
            let (w, plan) = if tcp {
                tcp_plan(v, f)
            } else {
                unix_plan(v, f)
            };
            &&& plan.start ==> v.owned is None && f.force_start && f.bin_found && f.startable
            &&& plan.start ==> w.last_server_start == Some(f.now) && (v.last_server_start is None
                || f.now - v.last_server_start->0 >= SERVER_START_MIN_GAP)
            &&& !plan.start ==> w.last_server_start == v.last_server_start
        }),
{
}

/// The log says that the binary is missing once in a streak: it is silent when it has
/// said so, until the binary is found.
pub proof fn law_missing_binary_is_reported_once(
    v: SupervisorView,
    f: ConnectFailure,
    g: ConnectFailure,
)
    requires
        f.force_start && f.startable && !f.bin_found,
        g.force_start && g.startable && !g.bin_found,
    ensures
        !unix_plan(unix_plan(v, f).0, g).1.warn,
        v.owned is None ==> !tcp_plan(tcp_plan(v, f).0, g).1.warn,
{
}

/// A pass that parks leaves the engine no server, and one that attaches without a wish
/// for a server leaves it none either.
pub proof fn law_unwanted_server_is_stopped(v: SupervisorView, c: Conditions)
    ensures
        gated(v, c).1 is Park ==> gated(v, c).0.owned is None,
        gated(v, c).1 matches GateStep::Attach { force_start: false, .. } ==> gated(
            v,
            c,
        ).0.owned is None,
{
}

/// Once a launcher has been served, a server is wanted in every later pass.
pub proof fn law_launch_keeps_the_server_warm(v: SupervisorView, c: Conditions)
    requires
        v.launch_kept_warm,
    ensures
        gated(v, c).1 matches GateStep::Attach { force_start, .. } ==> force_start,
        gated(v, c).1 is Park ==> !c.stream || !c.codex_present,
        gated(v, c).0.launch_kept_warm,
{
}

/// A launcher that waits is answered or served: it is refused, or a server is sought and
/// started where none answers; it is never left parked.
pub proof fn law_launcher_is_never_parked(v: SupervisorView, c: Conditions)
    requires
        c.launch_requested,
    ensures
        match gated(v, c).1 {
            GateStep::Refuse(_) => !c.stream || !c.codex_present,
            GateStep::Park { .. } => false,
            GateStep::Attach { force_start, .. } => force_start && c.stream && c.codex_present,
        },
{
}

/// The engine's server always serves the endpoint that is configured.
pub proof fn law_owned_server_serves_the_endpoint(v: SupervisorView, key: Option<Seq<char>>)
    ensures
        routed(v, key).owned is Some ==> routed(v, key).owned == key,
        v.owned == key ==> routed(v, key) == v,
{
}

/// The pause before the next attempt: a second after a stable attachment, else twice the
/// last, half a minute at most; a launcher that waits shortens it to a tenth of a second.
pub proof fn law_pauses_between_attempts(backoff: u64)
    ensures
        stepped_backoff(true, backoff) == 1_000,
        backoff < 15_000 ==> stepped_backoff(false, backoff) == 2 * backoff,
        backoff >= 15_000 ==> stepped_backoff(false, backoff) == 30_000,
        paced(backoff, false) == backoff,
        backoff > 100 ==> paced(backoff, true) == 100,
        backoff <= 100 ==> paced(backoff, true) == backoff,
{
}

/// What follows an attempt: the loop ends with the engine; a deliberate end is followed by
/// the next pass at once and the shortest pause later; a loss after a minute or more counts
/// as that of a stable attachment; and nothing else is forgotten.
pub proof fn law_what_follows_an_attempt(
    v: SupervisorView,
    d: Detach,
    attempt: u64,
    launch_requested: bool,
)
    ensures
        settled(v, Outcome::Detached(Detach::Shutdown), attempt, launch_requested) == (
            v,
            After::Stop,
        ),
        d != Detach::Shutdown ==> settled(v, Outcome::Detached(d), attempt, launch_requested) == (
            SupervisorView { backoff: 1_000, ..v },
            After::Again,
        ),
        attempt >= 60_000 ==> settled(v, Outcome::Lost, attempt, false) == (
            SupervisorView { backoff: 1_000, ..v },
            After::Pause(1_000),
        ),
        attempt < 60_000 && v.backoff < 15_000 ==> settled(v, Outcome::Lost, attempt, false) == (
            SupervisorView { backoff: (2 * v.backoff) as u64, ..v },
            After::Pause((2 * v.backoff) as u64),
        ),
        v.backoff < 15_000 ==> settled(v, Outcome::Unattached, attempt, false) == (
            SupervisorView { backoff: (2 * v.backoff) as u64, ..v },
            After::Pause((2 * v.backoff) as u64),
        ),
        v.backoff >= 15_000 ==> settled(v, Outcome::Unattached, attempt, false).1 == After::Pause(
            30_000,
        ),
{
}

/// When the loop rests: streaming is off, Codex is not here, or there is neither a session
/// nor a wish for a server; and only then.
pub proof fn law_when_the_loop_rests(sessions: bool, server: bool)
    ensures
        parks(false, true, sessions, server),
        parks(true, false, sessions, server),
        parks(true, true, false, false),
        !parks(true, true, true, server),
        !parks(true, true, sessions, true),
{
}

/// How a pass begins where no launcher waits: it attaches where there is a session or a
/// server is to be kept, and starts one only where a server is to be kept.
pub proof fn law_how_a_pass_begins(v: SupervisorView, c: Conditions)
    requires
        !c.launch_requested,
    ensures
        ({
            let keep = c.daemon || v.launch_kept_warm;
            let (w, step) = gated(v, c);
            &&& c.stream && c.codex_present && (c.have_sessions || keep) ==> step == (
            GateStep::Attach { stopped: v.owned is Some && !keep, force_start: keep })
            &&& !c.stream || !c.codex_present || !(c.have_sessions || keep) ==> step == (
            GateStep::Park { stopped: v.owned is Some })
            &&& w.backoff == v.backoff && w.epoch == v.epoch && w.last_server_start
                == v.last_server_start && w.launch_kept_warm == v.launch_kept_warm
            &&& w.owned is Some ==> w.owned == v.owned
            &&& keep && step is Attach ==> w.owned == v.owned
        }),
{
}

/// A launcher is refused with the reason that holds: streaming is off, or Codex is not here.
pub proof fn law_why_a_launcher_is_refused(v: SupervisorView, c: Conditions)
    requires
        c.launch_requested,
    ensures
        !c.stream ==> gated(v, c) == (v, GateStep::Refuse(Refusal::StreamOff)),
        c.stream && !c.codex_present ==> gated(v, c) == (
            v,
            GateStep::Refuse(Refusal::NotInstalled),
        ),
        c.stream && c.codex_present ==> gated(v, c) == (
            v,
            GateStep::Attach { stopped: false, force_start: true },
        ),
{
}

/// When a server is started: one is wanted, its program was found, nobody serves the
/// endpoint, the engine owns none, and the last start is a minute ago or there was none. No
/// server is started on another machine.
pub proof fn law_when_a_server_is_started(v: SupervisorView, f: ConnectFailure)
    requires
        v.last_server_start is Some ==> v.last_server_start->0 <= f.now,
    ensures
        ({
            let long_ago = v.last_server_start is None || f.now - v.last_server_start->0 >= 60_000;
            let go = f.force_start && f.bin_found && f.startable && v.owned is None && long_ago;
            &&& unix_plan(v, f).1.start <==> go
            &&& tcp_plan(v, f).1.start <==> go
            &&& !unix_plan(v, f).1.refuse_remote
            &&& tcp_plan(v, f).1.refuse_remote <==> f.force_start && !f.startable
            &&& go ==> unix_plan(v, f).0.last_server_start == Some(f.now) && tcp_plan(
                v,
                f,
            ).0.last_server_start == Some(f.now)
        }),
{
}

/// A launcher is told that the program is missing, and the log says so, exactly where a
/// server is wanted that could be started but for it.
pub proof fn law_when_the_program_is_missing(v: SupervisorView, f: ConnectFailure)
    requires
        v.owned is None,
    ensures
        ({
            let missing = f.force_start && f.startable && !f.bin_found;
            &&& unix_plan(v, f).1.fail_launch <==> missing && f.launch_requested
            &&& tcp_plan(v, f).1.fail_launch <==> missing && f.launch_requested
            &&& unix_plan(v, f).1.warn <==> missing && !v.warned_bin_unresolvable
            &&& tcp_plan(v, f).1.warn <==> missing && !v.warned_bin_unresolvable
            &&& f.force_start && f.startable && f.bin_found ==> !unix_plan(
                v,
                f,
            ).0.warned_bin_unresolvable && !tcp_plan(v, f).0.warned_bin_unresolvable
            &&& unix_plan(v, f).0.owned is None && tcp_plan(v, f).0.owned is None
        }),
{
}

/// The pause is kept between a second and half a minute, whatever an attempt came to.
pub proof fn law_pause_stays_in_bounds(
    v: SupervisorView,
    outcome: Outcome,
    attempt: u64,
    launch_requested: bool,
)
    requires
        1_000 <= v.backoff <= 30_000,
    ensures
        backoff_bounded(v),
        1_000 <= settled(v, outcome, attempt, launch_requested).0.backoff <= 30_000,
        !backoff_bounded(SupervisorView { backoff: 999, ..v }),
        !backoff_bounded(SupervisorView { backoff: 30_001, ..v }),
{
}

} // verus!
