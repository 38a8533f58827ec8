//! What a request to the engine leads to: what is written to the log, what is asked of
//! the voice and of the other parts, in which order, and what is answered.
//!
//! The caller reads requests, carries the plan out, and sends the answer.

use crate::assoc::AssocMap;
use crate::json::Json;
use crate::text::{
    chars_of, copy_opt, decimal, decimal_digits, join, join3, str_opt, text_opt, trim, trimmed,
};
use vstd::prelude::*;

verus! {

/// The shortest and the longest time that a receiver of the dictation is believed, in
/// milliseconds.
pub const UI_LEASE_MIN_MS: u64 = 500;

pub const UI_LEASE_MAX_MS: u64 = 60_000;

/// The longest time that a request waits for a change, in milliseconds.
pub const WAIT_MAX_MS: u64 = 60_000;

/// The longest recording that a request may ask for, in seconds.
pub const CAPTURE_MAX_S: u64 = 60;

/// How much longer than the recording its result is waited for, in seconds.
pub const CAPTURE_GRACE_S: u64 = 30;

// ── Requests ─────────────────────────────────────────────────────────────────

/// A program that is wired to the engine.
#[derive(Debug, Clone, Copy, PartialEq, Eq, Structural)]
pub enum WiredAgent {
    ClaudeCode,
    Codex,
    Qwen,
    Grok,
    Kimi,
}

/// A request. `source` is the client that it comes from, where that is known.
#[derive(Debug, PartialEq, Eq)]
pub enum Request {
    Ping,
    EnsureCodexStream { codex_bin: String },
    GreetSession {
        session: Option<String>,
        queue_session: Option<String>,
        source: Option<WiredAgent>,
    },
    MarkActive {
        session: Option<String>,
        queue_session: Option<String>,
        synthetic: bool,
        source: Option<WiredAgent>,
    },
    Speak {
        text: String,
        tts_args: Option<Json>,
        session: String,
        source: Option<WiredAgent>,
    },
    SpeakNarration {
        text: String,
        /// What the language is told from, where that is another text.
        detection_text: Option<String>,
        session: Option<String>,
        /// Under which a repeated request is known.
        narration_id: Option<String>,
        source: Option<WiredAgent>,
    },
    SetMuted { on: bool },
    SetDictationUiReceiver { receiver_id: String, ttl_ms: u64 },
    Stop { session: String, source: Option<WiredAgent> },
    SessionEnd {
        session: Option<String>,
        queue_session: Option<String>,
        source: Option<WiredAgent>,
    },
    TestRecognitionStart,
    TestRecognitionStop,
    ModelStatus,
    AgentUsage { refresh: bool },
    WaitModelStatus { since: u64, timeout_ms: u64 },
    SetProvider { provider: String },
    Reload,
    Earcon { event: String, session: Option<String>, source: Option<WiredAgent> },
    AuthorizeSystemStt,
    Diarize { seconds: u64 },
    Enroll { name: String, seconds: u64 },
    ForgetSpeaker { name: String },
    ListSpeakers,
    ListModels,
    RemoveModel { id: String },
}

/// Something that a request asks of a part of the engine, or the answer where it does
/// not depend on what came of that.
#[derive(Debug, PartialEq, Eq)]
pub enum Action<S> {
    /// Mention a session to the observer of Codex.
    NudgeCodex(S),
    /// Mention a session to the observer of Grok.
    NudgeGrok(S),
    /// Let the observer of Grok forget a session.
    ForgetGrok(S),
    /// Let the voice forget what it narrated of a session.
    ForgetNarration(S),
    /// Tell the voice which window a session of a client runs in.
    Link { logical: Option<S>, queue: Option<S>, source: Option<WiredAgent> },
    /// Let the voice forget which window a session ran in.
    Unlink { logical: Option<S>, queue: Option<S> },
    /// Greet a window in the voice of its client.
    Greet { queue: Option<S>, source: Option<WiredAgent> },
    /// A window is the active one.
    SetActive(Option<S>),
    /// The user has submitted something in a window.
    Submitted(Option<S>),
    /// Silence a window and drop what would be said for it.
    ClearSession(Option<S>),
    /// Silence the windows other than one.
    CancelOthers(Option<S>),
    /// A window is gone.
    EndSession(Option<S>),
    /// Silence everything.
    ClearAll,
    /// Speak, with the arguments that the request holds.
    Speak { text: S, session: S, source: Option<WiredAgent> },
    /// Narrate.
    Narrate {
        text: S,
        detection_text: Option<S>,
        session: Option<S>,
        narration_id: Option<S>,
        source: Option<WiredAgent>,
    },
    /// Play a cue in a window.
    Earcon { event: S, session: Option<S>, source: Option<WiredAgent> },
    /// Mute the voice or not.
    SetMuted(bool),
    /// Let the helper run on another provider.
    SetProvider(S),
    /// Have the settings read.
    RequestReload,
    /// Wait for the app-server of Codex.
    EnsureRemote(S),
    /// A program receives the dictation, until so long from now.
    UiReceiver { for_ms: u64 },
    /// Try the recognizer.
    StartTest,
    /// End the trial.
    StopTest,
    /// Say how the models are.
    Status,
    /// Wait for a change, then say how the models are.
    WaitStatus { since: u64, timeout_ms: u64 },
    /// Say what the agents have used.
    Usage { refresh: bool },
    /// Ask the operating system for leave to transcribe.
    Authorize,
    /// Record and tell speakers apart.
    Diarize { seconds: u64 },
    /// Record and remember a speaker.
    Enroll { name: S, seconds: u64 },
    /// Forget a speaker.
    ForgetSpeaker(S),
    /// List the speakers.
    ListSpeakers,
    /// List the models, after removing one where one is named.
    Models { remove: Option<S> },
    /// Answer that the engine is there.
    Pong,
    /// Answer that it is done.
    Done,
    /// Answer with an error.
    Error(S),
}

/// An [`Action`] by its characters.
pub open spec fn action_view(a: Action<String>) -> Action<Seq<char>> {
    match a {
        Action::NudgeCodex(s) => Action::NudgeCodex(s@),
        Action::NudgeGrok(s) => Action::NudgeGrok(s@),
        Action::ForgetGrok(s) => Action::ForgetGrok(s@),
        Action::ForgetNarration(s) => Action::ForgetNarration(s@),
        Action::Link { logical, queue, source } => Action::Link {
            logical: text_opt(logical),
            queue: text_opt(queue),
            source,
        },
        Action::Unlink { logical, queue } => Action::Unlink {
            logical: text_opt(logical),
            queue: text_opt(queue),
        },
        Action::Greet { queue, source } => Action::Greet { queue: text_opt(queue), source },
        Action::SetActive(s) => Action::SetActive(text_opt(s)),
        Action::Submitted(s) => Action::Submitted(text_opt(s)),
        Action::ClearSession(s) => Action::ClearSession(text_opt(s)),
        Action::CancelOthers(s) => Action::CancelOthers(text_opt(s)),
        Action::EndSession(s) => Action::EndSession(text_opt(s)),
        Action::ClearAll => Action::ClearAll,
        Action::Speak { text, session, source } => Action::Speak {
            text: text@,
            session: session@,
            source,
        },
        Action::Narrate { text, detection_text, session, narration_id, source } => Action::Narrate {
            text: text@,
            detection_text: text_opt(detection_text),
            session: text_opt(session),
            narration_id: text_opt(narration_id),
            source,
        },
        Action::Earcon { event, session, source } => Action::Earcon {
            event: event@,
            session: text_opt(session),
            source,
        },
        Action::SetMuted(on) => Action::SetMuted(on),
        Action::SetProvider(s) => Action::SetProvider(s@),
        Action::RequestReload => Action::RequestReload,
        Action::EnsureRemote(s) => Action::EnsureRemote(s@),
        Action::UiReceiver { for_ms } => Action::UiReceiver { for_ms },
        Action::StartTest => Action::StartTest,
        Action::StopTest => Action::StopTest,
        Action::Status => Action::Status,
        Action::WaitStatus { since, timeout_ms } => Action::WaitStatus { since, timeout_ms },
        Action::Usage { refresh } => Action::Usage { refresh },
        Action::Authorize => Action::Authorize,
        Action::Diarize { seconds } => Action::Diarize { seconds },
        Action::Enroll { name, seconds } => Action::Enroll { name: name@, seconds },
        Action::ForgetSpeaker(s) => Action::ForgetSpeaker(s@),
        Action::ListSpeakers => Action::ListSpeakers,
        Action::Models { remove } => Action::Models { remove: text_opt(remove) },
        Action::Pong => Action::Pong,
        Action::Done => Action::Done,
        Action::Error(s) => Action::Error(s@),
    }
}

/// Actions by their characters.
pub open spec fn action_views(v: Seq<Action<String>>) -> Seq<Action<Seq<char>>> {
    Seq::new(v.len(), |i: int| action_view(v[i]))
}

fn push_action(v: &mut Vec<Action<String>>, a: Action<String>)
    ensures
        action_views(final(v)@) == action_views(old(v)@).push(action_view(a)),
{
    let ghost before = action_views(v@);
    v.push(a);
    assert(action_views(v@) =~= before.push(action_view(a)));
}

// ── Parts of a plan ──────────────────────────────────────────────────────────

/// A number kept between two bounds.
pub open spec fn between(n: u64, low: u64, high: u64) -> u64 {
    if n < low {
        low
    } else if n > high {
        high
    } else {
        n
    }
}

fn clamp(n: u64, low: u64, high: u64) -> (r: u64)
    ensures
        r == between(n, low, high),
{
    if n < low {
        low
    } else if n > high {
        high
    } else {
        n
    }
}

/// Whether a submit silences a scope: the echo of a submit by voice does not, since that
/// submit has done so already.
pub fn should_cancel_on_submit(was_voice: bool, scope_configured: bool) -> (r: bool)
    ensures
        r == (!was_voice && scope_configured),
{
    !was_voice && scope_configured
}

/// The window of a cue: the one that is named, else the active one.
pub open spec fn cue_window(active: Option<Seq<char>>, requested: Option<Seq<char>>) -> Option<
    Seq<char>,
> {
    if requested is Some {
        requested
    } else {
        active
    }
}

/// The window of a cue: the one that is named, else the active one.
pub fn earcon_session(active: Option<&str>, requested: Option<String>) -> (r: Option<String>)
    ensures
        text_opt(r) == cue_window(str_opt(active), text_opt(requested)),
{
    match requested {
        Some(s) => Some(s),
        None => match active {
            Some(s) => Some(s.to_owned()),
            None => None,
        },
    }
}

/// Whether the client is Grok.
pub open spec fn from_grok(source: Option<WiredAgent>) -> bool {
    source == Some(WiredAgent::Grok)
}

fn is_from_grok(source: Option<WiredAgent>) -> (r: bool)
    ensures
        r == from_grok(source),
{
    matches!(source, Some(WiredAgent::Grok))
}

/// A session is mentioned to the observers: to Codex's always, and to Grok's where the
/// client is Grok.
pub open spec fn mentions(session: Option<Seq<char>>, source: Option<WiredAgent>) -> Seq<
    Action<Seq<char>>,
> {
    match session {
        None => Seq::empty(),
        Some(s) => if from_grok(source) {
            seq![Action::NudgeCodex(s), Action::NudgeGrok(s)]
        } else {
            seq![Action::NudgeCodex(s)]
        },
    }
}

fn push_mentions(v: &mut Vec<Action<String>>, session: &Option<String>, source: Option<WiredAgent>)
    ensures
        action_views(final(v)@) == action_views(old(v)@) + mentions(text_opt(*session), source),
{
    let ghost before = action_views(v@);
    match session {
        Some(s) => {
            push_action(v, Action::NudgeCodex(s.as_str().to_owned()));
            if is_from_grok(source) {
                push_action(v, Action::NudgeGrok(s.as_str().to_owned()));
            }
        },
        None => {},
    }
    assert(action_views(v@) =~= before + mentions(text_opt(*session), source));
}

/// What is forgotten of a session that has ended.
pub open spec fn forgotten(session: Option<Seq<char>>, source: Option<WiredAgent>) -> Seq<
    Action<Seq<char>>,
> {
    match session {
        None => Seq::empty(),
        Some(s) => if from_grok(source) {
            seq![Action::ForgetNarration(s), Action::ForgetGrok(s)]
        } else {
            seq![Action::ForgetNarration(s)]
        },
    }
}

/// The tag under which the voice keeps what Grok says at the end of a turn.
pub open spec fn sticky_tag(session: Seq<char>) -> Seq<char> {
    "grok-stop:"@ + session
}

// ── The plan ─────────────────────────────────────────────────────────────────

/// What a request leads to, given the active window.
pub open spec fn planned(req: Request, active: Option<Seq<char>>) -> Seq<Action<Seq<char>>> {
    match req {
        Request::Ping => seq![Action::Pong],
        Request::EnsureCodexStream { codex_bin } => seq![Action::EnsureRemote(codex_bin@)],
        Request::GreetSession { session, queue_session, source } => mentions(text_opt(session), source)
            + seq![
            Action::Link {
                logical: text_opt(session),
                queue: text_opt(queue_session),
                source,
            },
            Action::Greet { queue: text_opt(queue_session), source },
            Action::Done,
        ],
        Request::MarkActive { session, queue_session, synthetic, source } => mentions(
            text_opt(session),
            source,
        ).push(Action::Link {
                logical: text_opt(session),
                queue: text_opt(queue_session),
                source,
            }) + (
        if synthetic {
            seq![Action::Done]
        } else {
            seq![
                Action::SetActive(text_opt(queue_session)),
                Action::Submitted(text_opt(queue_session)),
                Action::Done,
            ]
        }),
        Request::Speak { text, session, source, .. } => seq![
            Action::Speak { text: text@, session: session@, source },
        ],
        Request::SpeakNarration { text, detection_text, session, narration_id, source } => seq![
            Action::Narrate {
                text: text@,
                detection_text: text_opt(detection_text),
                session: text_opt(session),
                narration_id: text_opt(narration_id),
                source,
            },
        ],
        Request::SetMuted { on } => seq![Action::SetMuted(on), Action::Done],
        Request::SetDictationUiReceiver { ttl_ms, .. } => seq![
            Action::UiReceiver { for_ms: between(ttl_ms, UI_LEASE_MIN_MS, UI_LEASE_MAX_MS) },
            Action::Done,
        ],
        Request::Stop { session, .. } => seq![
            Action::ClearSession(Some(session@)),
            Action::ClearSession(Some(sticky_tag(session@))),
            Action::Done,
        ],
        Request::SessionEnd { session, queue_session, source } => forgotten(text_opt(session), source)
            + seq![
            if queue_session is Some {
                Action::EndSession(text_opt(queue_session))
            } else {
                Action::ClearAll
            },
            Action::Unlink { logical: text_opt(session), queue: text_opt(queue_session) },
            Action::Done,
        ],
        Request::TestRecognitionStart => seq![Action::StartTest],
        Request::TestRecognitionStop => seq![Action::StopTest, Action::Done],
        Request::ModelStatus => seq![Action::Status],
        Request::AgentUsage { refresh } => seq![Action::Usage { refresh }],
        Request::WaitModelStatus { since, timeout_ms } => seq![
            Action::WaitStatus { since, timeout_ms: between(timeout_ms, 1, WAIT_MAX_MS) },
        ],
        Request::SetProvider { provider } => seq![Action::SetProvider(provider@), Action::Done],
        Request::Reload => seq![Action::RequestReload, Action::Done],
        Request::Earcon { event, session, source } => seq![
            Action::Earcon {
                event: event@,
                session: cue_window(active, text_opt(session)),
                source,
            },
        ],
        Request::AuthorizeSystemStt => seq![Action::Authorize],
        Request::Diarize { seconds } => seq![Action::Diarize { seconds }],
        Request::Enroll { name, seconds } => if trim(name@).len() == 0 {
            seq![Action::Error("enroll: name must not be empty"@)]
        } else {
            seq![Action::Enroll { name: trim(name@), seconds }]
        },
        Request::ForgetSpeaker { name } => seq![Action::ForgetSpeaker(name@)],
        Request::ListSpeakers => seq![Action::ListSpeakers],
        Request::ListModels => seq![Action::Models { remove: None }],
        Request::RemoveModel { id } => seq![Action::Models { remove: Some(id@) }],
    }
}

/// What the greeting of a window leads to.
fn greet(
    v: &mut Vec<Action<String>>,
    session: &Option<String>,
    queue_session: &Option<String>,
    source: Option<WiredAgent>,
)
    ensures
        action_views(final(v)@) == action_views(old(v)@) + mentions(text_opt(*session), source)
            + seq![
            Action::Link {
                logical: text_opt(*session),
                queue: text_opt(*queue_session),
                source,
            },
            Action::Greet { queue: text_opt(*queue_session), source },
            Action::Done,
        ],
{
    push_mentions(v, session, source);
    let ghost before = action_views(v@);
    push_action(
        v,
        Action::Link { logical: copy_opt(session), queue: copy_opt(queue_session), source },
    );
    push_action(v, Action::Greet { queue: copy_opt(queue_session), source });
    push_action(v, Action::Done);
    assert(action_views(v@) =~= before + seq![
        Action::Link {
                logical: text_opt(*session),
                queue: text_opt(*queue_session),
                source,
            },
        Action::Greet { queue: text_opt(*queue_session), source },
        Action::Done,
    ]);
}

/// What a submit in a window leads to.
fn mark_active(
    v: &mut Vec<Action<String>>,
    session: &Option<String>,
    queue_session: &Option<String>,
    synthetic: bool,
    source: Option<WiredAgent>,
)
    ensures
        action_views(final(v)@) == action_views(old(v)@) + (mentions(text_opt(*session), source).push(
            Action::Link {
                logical: text_opt(*session),
                queue: text_opt(*queue_session),
                source,
            },
        ) + (if synthetic {
            seq![Action::Done]
        } else {
            seq![
                Action::SetActive(text_opt(*queue_session)),
                Action::Submitted(text_opt(*queue_session)),
                Action::Done,
            ]
        })),
{
    let ghost start = action_views(v@);
    push_mentions(v, session, source);
    push_action(
        v,
        Action::Link { logical: copy_opt(session), queue: copy_opt(queue_session), source },
    );
    let ghost linked = Action::Link {
        logical: text_opt(*session),
        queue: text_opt(*queue_session),
        source,
    };
    if !synthetic {
        push_action(v, Action::SetActive(copy_opt(queue_session)));
        push_action(v, Action::Submitted(copy_opt(queue_session)));
    }
    push_action(v, Action::Done);
    proof {
        let tail = if synthetic {
            seq![Action::Done]
        } else {
            seq![
                Action::SetActive(text_opt(*queue_session)),
                Action::Submitted(text_opt(*queue_session)),
                Action::Done,
            ]
        };
        assert(action_views(v@) =~= start + (mentions(text_opt(*session), source).push(linked)
            + tail));
    }
}

/// What the end of a window leads to.
fn end_session(
    v: &mut Vec<Action<String>>,
    session: &Option<String>,
    queue_session: &Option<String>,
    source: Option<WiredAgent>,
)
    ensures
        action_views(final(v)@) == action_views(old(v)@) + forgotten(text_opt(*session), source)
            + seq![
            if queue_session is Some {
                Action::EndSession(text_opt(*queue_session))
            } else {
                Action::ClearAll
            },
            Action::Unlink { logical: text_opt(*session), queue: text_opt(*queue_session) },
            Action::Done,
        ],
{
    let ghost start = action_views(v@);
    match session {
        Some(s) => {
            push_action(v, Action::ForgetNarration(s.as_str().to_owned()));
            if is_from_grok(source) {
                push_action(v, Action::ForgetGrok(s.as_str().to_owned()));
            }
        },
        None => {},
    }
    assert(action_views(v@) =~= start + forgotten(text_opt(*session), source));
    let ghost middle = action_views(v@);
    if queue_session.is_some() {
        push_action(v, Action::EndSession(copy_opt(queue_session)));
    } else {
        push_action(v, Action::ClearAll);
    }
    push_action(
        v,
        Action::Unlink { logical: copy_opt(session), queue: copy_opt(queue_session) },
    );
    push_action(v, Action::Done);
    assert(action_views(v@) =~= middle + seq![
        if queue_session is Some {
            Action::EndSession(text_opt(*queue_session))
        } else {
            Action::ClearAll
        },
        Action::Unlink { logical: text_opt(*session), queue: text_opt(*queue_session) },
        Action::Done,
    ]);
}

/// What a request leads to, in order.
pub fn plan(req: &Request, active: Option<&str>) -> (r: Vec<Action<String>>)
    ensures
        action_views(r@) == planned(*req, str_opt(active)),
{
    let mut out: Vec<Action<String>> = Vec::new();
    assert(action_views(out@) =~= Seq::empty());
    match req {
        Request::Ping => {
            push_action(&mut out, Action::Pong);
        },
        Request::EnsureCodexStream { codex_bin } => {
            push_action(&mut out, Action::EnsureRemote(codex_bin.as_str().to_owned()));
        },
        Request::GreetSession { session, queue_session, source } => {
            greet(&mut out, session, queue_session, *source);
        },
        Request::MarkActive { session, queue_session, synthetic, source } => {
            mark_active(&mut out, session, queue_session, *synthetic, *source);
        },
        Request::Speak { text, session, source, .. } => {
            push_action(
                &mut out,
                Action::Speak {
                    text: text.as_str().to_owned(),
                    session: session.as_str().to_owned(),
                    source: *source,
                },
            );
        },
        Request::SpeakNarration { text, detection_text, session, narration_id, source } => {
            push_action(
                &mut out,
                Action::Narrate {
                    text: text.as_str().to_owned(),
                    detection_text: copy_opt(detection_text),
                    session: copy_opt(session),
                    narration_id: copy_opt(narration_id),
                    source: *source,
                },
            );
        },
        Request::SetMuted { on } => {
            push_action(&mut out, Action::SetMuted(*on));
            push_action(&mut out, Action::Done);
        },
        Request::SetDictationUiReceiver { ttl_ms, .. } => {
            push_action(
                &mut out,
                Action::UiReceiver { for_ms: clamp(*ttl_ms, UI_LEASE_MIN_MS, UI_LEASE_MAX_MS) },
            );
            push_action(&mut out, Action::Done);
        },
        Request::Stop { session, .. } => {
            push_action(&mut out, Action::ClearSession(Some(session.as_str().to_owned())));
            push_action(
                &mut out,
                Action::ClearSession(Some(join("grok-stop:", session.as_str()))),
            );
            push_action(&mut out, Action::Done);
        },
        Request::SessionEnd { session, queue_session, source } => {
            end_session(&mut out, session, queue_session, *source);
        },
        Request::TestRecognitionStart => {
            push_action(&mut out, Action::StartTest);
        },
        Request::TestRecognitionStop => {
            push_action(&mut out, Action::StopTest);
            push_action(&mut out, Action::Done);
        },
        Request::ModelStatus => {
            push_action(&mut out, Action::Status);
        },
        Request::AgentUsage { refresh } => {
            push_action(&mut out, Action::Usage { refresh: *refresh });
        },
        Request::WaitModelStatus { since, timeout_ms } => {
            push_action(
                &mut out,
                Action::WaitStatus {
                    since: *since,
                    timeout_ms: clamp(*timeout_ms, 1, WAIT_MAX_MS),
                },
            );
        },
        Request::SetProvider { provider } => {
            push_action(&mut out, Action::SetProvider(provider.as_str().to_owned()));
            push_action(&mut out, Action::Done);
        },
        Request::Reload => {
            push_action(&mut out, Action::RequestReload);
            push_action(&mut out, Action::Done);
        },
        Request::Earcon { event, session, source } => {
            push_action(
                &mut out,
                Action::Earcon {
                    event: event.as_str().to_owned(),
                    session: earcon_session(active, copy_opt(session)),
                    source: *source,
                },
            );
        },
        Request::AuthorizeSystemStt => {
            push_action(&mut out, Action::Authorize);
        },
        Request::Diarize { seconds } => {
            push_action(&mut out, Action::Diarize { seconds: *seconds });
        },
        Request::Enroll { name, seconds } => {
            let n = trimmed(name.as_str());
            if n.as_str().is_empty() {
                push_action(
                    &mut out,
                    Action::Error("enroll: name must not be empty".to_owned()),
                );
            } else {
                push_action(&mut out, Action::Enroll { name: n, seconds: *seconds });
            }
        },
        Request::ForgetSpeaker { name } => {
            push_action(&mut out, Action::ForgetSpeaker(name.as_str().to_owned()));
        },
        Request::ListSpeakers => {
            push_action(&mut out, Action::ListSpeakers);
        },
        Request::ListModels => {
            push_action(&mut out, Action::Models { remove: None });
        },
        Request::RemoveModel { id } => {
            push_action(&mut out, Action::Models { remove: Some(id.as_str().to_owned()) });
        },
    }
    assert(action_views(out@) =~= planned(*req, str_opt(active)));
    out
}

/// What a submit silences, given whether it is the echo of a submit by voice, and what
/// the settings say.
pub open spec fn silenced(
    was_voice: bool,
    clears_current: bool,
    clears_other: bool,
    queue: Option<Seq<char>>,
) -> Seq<Action<Seq<char>>> {
    if was_voice {
        Seq::empty()
    } else {
        (if clears_current {
            seq![Action::ClearSession(queue)]
        } else {
            Seq::empty()
        }) + (if clears_other {
            seq![Action::CancelOthers(queue)]
        } else {
            Seq::empty()
        })
    }
}

/// What a submit silences; see [`silenced`]. The window is that of the request, not the
/// active one, which another request may have changed meanwhile.
pub fn submit_actions(
    was_voice: bool,
    clears_current: bool,
    clears_other: bool,
    queue: &Option<String>,
) -> (r: Vec<Action<String>>)
    ensures
        action_views(r@) == silenced(was_voice, clears_current, clears_other, text_opt(*queue)),
{
    let mut out: Vec<Action<String>> = Vec::new();
    if should_cancel_on_submit(was_voice, clears_current) {
        push_action(&mut out, Action::ClearSession(copy_opt(queue)));
    }
    if should_cancel_on_submit(was_voice, clears_other) {
        push_action(&mut out, Action::CancelOthers(copy_opt(queue)));
    }
    assert(action_views(out@) =~= silenced(
        was_voice,
        clears_current,
        clears_other,
        text_opt(*queue),
    ));
    out
}

// ── The log ──────────────────────────────────────────────────────────────────

/// A session in the log: a dash where there is none.
pub open spec fn logged_session(s: Option<Seq<char>>) -> Seq<char> {
    match s {
        Some(t) => t,
        None => "-"@,
    }
}

fn session_or_dash(s: &Option<String>) -> (r: String)
    ensures
        r@ == logged_session(text_opt(*s)),
{
    match s {
        Some(t) => t.as_str().to_owned(),
        None => "-".to_owned(),
    }
}

/// A session and its window in the log.
pub open spec fn logged_pair(what: Seq<char>, session: Option<Seq<char>>, queue: Option<Seq<char>>)
    -> Seq<char> {
    what + " session="@ + logged_session(session) + " queue_session="@ + logged_session(queue)
}

fn log_pair(what: &str, session: &Option<String>, queue: &Option<String>) -> (r: String)
    ensures
        r@ == logged_pair(what@, text_opt(*session), text_opt(*queue)),
{
    let s = session_or_dash(session);
    let q = session_or_dash(queue);
    let head = join3(what, " session=", s.as_str());
    join3(head.as_str(), " queue_session=", q.as_str())
}

/// What is written to the log about a request, where anything is.
pub open spec fn logged(req: Request, active: Option<Seq<char>>) -> Option<Seq<char>> {
    match req {
        Request::GreetSession { session, queue_session, .. } => Some(
            logged_pair("greet_session"@, text_opt(session), text_opt(queue_session)),
        ),
        Request::MarkActive { session, queue_session, synthetic, .. } => Some(
            logged_pair("mark_active"@, text_opt(session), text_opt(queue_session)) + (
            if synthetic {
                " synthetic=true"@
            } else {
                " synthetic=false"@
            }),
        ),
        Request::Speak { text, session, .. } => Some(
            "speak session="@ + session@ + " chars="@ + decimal_digits(text@.len()),
        ),
        Request::SetDictationUiReceiver { receiver_id, .. } => Some(
            "dictation UI receiver="@ + receiver_id@,
        ),
        Request::Stop { session, .. } => Some("stop session="@ + session@),
        Request::SessionEnd { session, queue_session, .. } => Some(
            logged_pair("session_end"@, text_opt(session), text_opt(queue_session)),
        ),
        Request::Earcon { event, session, .. } => Some(
            "earcon event="@ + event@ + " session="@ + logged_session(
                cue_window(active, text_opt(session)),
            ),
        ),
        _ => None,
    }
}

/// What is written to the log about a request, where anything is.
pub fn log_line(req: &Request, active: Option<&str>) -> (r: Option<String>)
    ensures
        text_opt(r) == logged(*req, str_opt(active)),
{
    match req {
        Request::GreetSession { session, queue_session, .. } => Some(
            log_pair("greet_session", session, queue_session),
        ),
        Request::MarkActive { session, queue_session, synthetic, .. } => {
            let head = log_pair("mark_active", session, queue_session);
            if *synthetic {
                Some(join(head.as_str(), " synthetic=true"))
            } else {
                Some(join(head.as_str(), " synthetic=false"))
            }
        },
        Request::Speak { text, session, .. } => {
            let count: u64 = chars_of(text.as_str()).len() as u64;
            let n = decimal(count);
            let head = join3("speak session=", session.as_str(), " chars=");
            Some(join(head.as_str(), n.as_str()))
        },
        Request::SetDictationUiReceiver { receiver_id, .. } => Some(
            join("dictation UI receiver=", receiver_id.as_str()),
        ),
        Request::Stop { session, .. } => Some(join("stop session=", session.as_str())),
        Request::SessionEnd { session, queue_session, .. } => Some(
            log_pair("session_end", session, queue_session),
        ),
        Request::Earcon { event, session, .. } => {
            let s = earcon_session(active, copy_opt(session));
            let name = session_or_dash(&s);
            let head = join3("earcon event=", event.as_str(), " session=");
            Some(join(head.as_str(), name.as_str()))
        },
        _ => None,
    }
}

/// The client of a request, to which what is written about it is attributed.
pub open spec fn client_of(req: Request) -> Option<WiredAgent> {
    match req {
        Request::GreetSession { source, .. } => source,
        Request::MarkActive { source, .. } => source,
        Request::Speak { source, .. } => source,
        Request::SpeakNarration { source, .. } => source,
        Request::Stop { source, .. } => source,
        Request::SessionEnd { source, .. } => source,
        Request::Earcon { source, .. } => source,
        _ => None,
    }
}

/// The client of a request; see [`client_of`].
pub fn log_client(req: &Request) -> (r: Option<WiredAgent>)
    ensures
        r == client_of(*req),
{
    match req {
        Request::GreetSession { source, .. } => *source,
        Request::MarkActive { source, .. } => *source,
        Request::Speak { source, .. } => *source,
        Request::SpeakNarration { source, .. } => *source,
        Request::Stop { source, .. } => *source,
        Request::SessionEnd { source, .. } => *source,
        Request::Earcon { source, .. } => *source,
        _ => None,
    }
}

/// What is written to the log about a narration once the voice has been asked. One that
/// is taken is not mentioned: there is one for every line.
pub fn narration_log_line(result: &Result<(), String>) -> (r: Option<String>)
    ensures
        text_opt(r) == (match *result {
            Ok(_) => None,
            Err(e) => Some("narration rejected: "@ + e@),
        }),
{
    match result {
        Ok(_) => None,
        Err(e) => Some(join("narration rejected: ", e.as_str())),
    }
}

/// What is written to the log, as a warning, about a request that cannot be read.
pub fn bad_request_log_line(detail: &str) -> (r: String)
    ensures
        r@ == detail@
            + " — caller and engine are out of sync; reinstall the CLI and restart the app"@,
{
    join(
        detail,
        " — caller and engine are out of sync; reinstall the CLI and restart the app",
    )
}

// ── Answers ──────────────────────────────────────────────────────────────────

/// An answer to a request that had to be carried out first.
#[derive(Debug, PartialEq, Eq)]
pub enum Reply {
    Done,
    /// What is being said, by its number.
    Utterance(u64),
    /// Where the app-server of Codex listens.
    CodexStreamReady(String),
    /// A speaker is remembered.
    Enrolled(String),
    Error(String),
}

/// A [`Reply`] by its characters.
pub enum ReplyView {
    Done,
    Utterance(u64),
    CodexStreamReady(Seq<char>),
    Enrolled(Seq<char>),
    Error(Seq<char>),
}

impl View for Reply {
    type V = ReplyView;

    open spec fn view(&self) -> ReplyView {
        match self {
            Reply::Done => ReplyView::Done,
            Reply::Utterance(id) => ReplyView::Utterance(*id),
            Reply::CodexStreamReady(e) => ReplyView::CodexStreamReady(e@),
            Reply::Enrolled(n) => ReplyView::Enrolled(n@),
            Reply::Error(m) => ReplyView::Error(m@),
        }
    }
}

/// An error, with what failed before it.
fn failed(what: &str, error: &str) -> (r: Reply)
    ensures
        r@ == ReplyView::Error(what@ + ": "@ + error@),
{
    Reply::Error(join3(what, ": ", error))
}

/// The arguments of one utterance, where there are any, once they were read. Arguments
/// that cannot be used are refused and not adjusted: the text would otherwise be said in
/// a voice that nobody asked for.
pub fn speak_tts_args<A>(read: Option<Result<A, String>>) -> (r: Result<Option<A>, String>)
    ensures
        match read {
            None => r == Ok::<Option<A>, String>(None),
            Some(Ok(args)) => r == Ok::<Option<A>, String>(Some(args)),
            Some(Err(e)) => r is Err && r->Err_0@ == "invalid tts_args: "@ + e@,
        },
{
    match read {
        None => Ok(None),
        Some(Ok(args)) => Ok(Some(args)),
        Some(Err(e)) => Err(join("invalid tts_args: ", e.as_str())),
    }
}

/// The answer to a request to speak. Blank text is accepted and says nothing.
pub fn speak_reply(result: &Result<Option<u64>, String>) -> (r: Reply)
    ensures
        r@ == (match *result {
            Ok(Some(id)) => ReplyView::Utterance(id),
            Ok(None) => ReplyView::Done,
            Err(e) => ReplyView::Error("speak"@ + ": "@ + e@),
        }),
{
    match result {
        Ok(Some(id)) => Reply::Utterance(*id),
        Ok(None) => Reply::Done,
        Err(e) => failed("speak", e.as_str()),
    }
}

/// The answer to a request that either succeeds or fails; `what` names it.
pub fn plain_reply(what: &str, result: &Result<(), String>) -> (r: Reply)
    ensures
        r@ == (match *result {
            Ok(_) => ReplyView::Done,
            Err(e) => ReplyView::Error(what@ + ": "@ + e@),
        }),
{
    match result {
        Ok(_) => Reply::Done,
        Err(e) => failed(what, e.as_str()),
    }
}

/// The answer to a request for the app-server of Codex.
pub fn remote_reply(result: Result<String, String>) -> (r: Reply)
    ensures
        r@ == (match result {
            Ok(e) => ReplyView::CodexStreamReady(e@),
            Err(m) => ReplyView::Error(m@),
        }),
{
    match result {
        Ok(e) => Reply::CodexStreamReady(e),
        Err(m) => Reply::Error(m),
    }
}

/// The answer to a request to remember a speaker, once that was tried.
pub fn enroll_reply(name: String, saved: &Result<(), String>) -> (r: Reply)
    ensures
        r@ == (match *saved {
            Ok(_) => ReplyView::Enrolled(name@),
            Err(e) => ReplyView::Error("enroll: save failed"@ + ": "@ + e@),
        }),
{
    match saved {
        Ok(_) => Reply::Enrolled(name),
        Err(e) => failed("enroll: save failed", e.as_str()),
    }
}

// ── Receivers of the dictation ───────────────────────────────────────────────

/// Until when a receiver is believed.
pub fn ui_lease_until(now: u64, for_ms: u64) -> (r: u64)
    ensures
        r == now.saturating_add(for_ms),
{
    now.saturating_add(for_ms)
}

/// Takes back a lease that has ended; whether there was one.
pub fn expire_ui_lease(lease: &mut Option<u64>, now: u64) -> (r: bool)
    ensures
        r == (*old(lease) is Some && old(lease)->0 <= now),
        *final(lease) == (if r {
            None
        } else {
            *old(lease)
        }),
{
    match *lease {
        Some(expires) => {
            if expires <= now {
                *lease = None;
                true
            } else {
                false
            }
        },
        None => false,
    }
}

// ── Recordings ───────────────────────────────────────────────────────────────

/// Makes a recording on behalf of a request. It is refused while a dictation or another
/// such recording is under way, since there is one microphone; it is between one and
/// [`CAPTURE_MAX_S`] seconds long. `op_label` names the request in what is answered.
/// Afterwards the microphone is free again.
pub fn run_bounded_capture<T, F: FnOnce(u64) -> Result<T, String>>(
    stt_active: bool,
    capture_busy: &mut bool,
    op_label: &str,
    seconds: u64,
    f: F,
) -> (r: Result<T, String>)
    requires
        !stt_active && !*old(capture_busy) ==> f.requires((between(seconds, 1, CAPTURE_MAX_S),)),
    ensures
        *final(capture_busy) == *old(capture_busy),
        stt_active ==> r is Err && r->Err_0@ == op_label@
            + ": dictation is active; try again after it ends"@,
        !stt_active && *old(capture_busy) ==> r is Err && r->Err_0@ == op_label@
            + ": another diarize or enroll capture is already active"@,
        !stt_active && !*old(capture_busy) ==> exists|inner: Result<T, String>|
            {
                &&& #[trigger] f.ensures((between(seconds, 1, CAPTURE_MAX_S),), inner)
                &&& match inner {
                    Ok(t) => r == Ok::<T, String>(t),
                    Err(e) => r is Err && r->Err_0@ == op_label@ + ": "@ + e@,
                }
            },
{
    if stt_active {
        return Err(join(op_label, ": dictation is active; try again after it ends"));
    }
    if *capture_busy {
        return Err(join(op_label, ": another diarize or enroll capture is already active"));
    }
    *capture_busy = true;
    let secs: u64 = clamp(seconds, 1, CAPTURE_MAX_S);
    let inner = f(secs);
    *capture_busy = false;
    match inner {
        Ok(t) => Ok(t),
        Err(e) => Err(join3(op_label, ": ", e.as_str())),
    }
}

/// How long the result of a recording is waited for, in seconds.
pub fn capture_timeout(secs: u64) -> (r: u64)
    requires
        secs <= CAPTURE_MAX_S,
    ensures
        r == secs + CAPTURE_GRACE_S,
{
    secs + CAPTURE_GRACE_S
}

/// A stretch of a recording: who speaks, by number and, where it is known, by name.
#[derive(Debug, PartialEq, Eq)]
pub struct SegmentLabel {
    pub speaker: String,
    pub name: Option<String>,
}

/// The name of a stretch once the speakers were matched: that of its speaker, where the
/// speaker was matched.
pub open spec fn named_as(label: SegmentLabel, names: Map<Seq<char>, String>) -> Option<Seq<char>> {
    if names.contains_key(label.speaker@) {
        Some(names[label.speaker@]@)
    } else {
        text_opt(label.name)
    }
}

/// The names of stretches once the speakers were matched. Where no speaker was matched,
/// they stay as they are.
pub fn name_segments(labels: &Vec<SegmentLabel>, names: &AssocMap<String, String>) -> (r: Vec<
    Option<String>,
>)
    requires
        names.wf(),
    ensures
        r@.len() == labels@.len(),
        forall|i: int|
            0 <= i < labels@.len() ==> text_opt(#[trigger] r@[i]) == named_as(labels@[i], names@),
{
    let mut out: Vec<Option<String>> = Vec::new();
    let mut i: usize = 0;
    while i < labels.len()
        invariant
            i <= labels.len(),
            names.wf(),
            out@.len() == i,
            forall|k: int|
                0 <= k < i ==> text_opt(#[trigger] out@[k]) == named_as(labels@[k], names@),
        decreases labels.len() - i,
    {
        let name = match names.get(&labels[i].speaker) {
            Some(n) => Some(n.as_str().to_owned()),
            None => copy_opt(&labels[i].name),
        };
        out.push(name);
        i += 1;
    }
    out
}

// ── Laws ─────────────────────────────────────────────────────────────────────

/// A submit that no user made claims no window and silences nothing: it only mentions
/// its session.
pub proof fn law_synthetic_submit_touches_no_speech(
    session: Option<String>,
    queue_session: Option<String>,
    source: Option<WiredAgent>,
    active: Option<Seq<char>>,
)
    ensures
        ({
            let p = planned(
                Request::MarkActive { session, queue_session, synthetic: true, source },
                active,
            );
            forall|i: int|
                0 <= i < p.len() ==> (#[trigger] p[i] is NudgeCodex || p[i] is NudgeGrok || p[i]
                    is Link || p[i] is Done)
        }),
{
}

/// Only Grok's sessions are mentioned to the observer of Grok.
pub proof fn law_only_grok_is_mentioned_to_grok(req: Request, active: Option<Seq<char>>)
    requires
        match req {
            Request::GreetSession { source, .. } => !from_grok(source),
            Request::MarkActive { source, .. } => !from_grok(source),
            _ => true,
        },
    ensures
        forall|i: int|
            0 <= i < planned(req, active).len() ==> !(#[trigger] planned(req, active)[i]
                is NudgeGrok),
{
}

/// The echo of a submit by voice silences nothing more.
pub proof fn law_voice_echo_silences_nothing(
    clears_current: bool,
    clears_other: bool,
    queue: Option<Seq<char>>,
)
    ensures
        silenced(true, clears_current, clears_other, queue).len() == 0,
{
}

/// Whether an action answers a request, itself or with what comes of it.
pub open spec fn is_answer(a: Action<Seq<char>>) -> bool {
    match a {
        Action::NudgeCodex(_)
        | Action::NudgeGrok(_)
        | Action::ForgetGrok(_)
        | Action::ForgetNarration(_)
        | Action::Link { .. }
        | Action::Unlink { .. }
        | Action::Greet { .. }
        | Action::SetActive(_)
        | Action::Submitted(_)
        | Action::ClearSession(_)
        | Action::CancelOthers(_)
        | Action::EndSession(_)
        | Action::ClearAll
        | Action::SetMuted(_)
        | Action::SetProvider(_)
        | Action::RequestReload
        | Action::UiReceiver { .. }
        | Action::StopTest => false,
        _ => true,
    }
}

/// Every request is answered exactly once, after everything else that it leads to.
pub proof fn law_every_request_is_answered_once(req: Request, active: Option<Seq<char>>)
    ensures
        planned(req, active).len() > 0,
        is_answer(planned(req, active).last()),
        forall|i: int|
            0 <= i < planned(req, active).len() - 1 ==> !is_answer(
                #[trigger] planned(req, active)[i],
            ),
{
}

/// Whatever the voice is asked to do for a client, it is told which client that is.
pub proof fn law_the_voice_knows_the_client(req: Request, active: Option<Seq<char>>)
    ensures
        forall|i: int|
            0 <= i < planned(req, active).len() ==> (match #[trigger] planned(req, active)[i] {
                Action::Link { source, .. } => source == client_of(req),
                Action::Greet { source, .. } => source == client_of(req),
                Action::Speak { source, .. } => source == client_of(req),
                Action::Narrate { source, .. } => source == client_of(req),
                Action::Earcon { source, .. } => source == client_of(req),
                _ => true,
            }),
{
}

/// Whether the voice is muted once actions were carried out.
pub open spec fn muted_after(muted: bool, actions: Seq<Action<Seq<char>>>) -> bool
    decreases actions.len(),
{
    if actions.len() == 0 {
        muted
    } else {
        match actions[0] {
            Action::SetMuted(on) => muted_after(on, actions.drop_first()),
            _ => muted_after(muted, actions.drop_first()),
        }
    }
}

/// The active window once actions were carried out.
pub open spec fn active_after(
    active: Option<Seq<char>>,
    actions: Seq<Action<Seq<char>>>,
) -> Option<Seq<char>>
    decreases actions.len(),
{
    if actions.len() == 0 {
        active
    } else {
        match actions[0] {
            Action::SetActive(w) => active_after(w, actions.drop_first()),
            _ => active_after(active, actions.drop_first()),
        }
    }
}

proof fn lemma_muted_kept(muted: bool, actions: Seq<Action<Seq<char>>>)
    requires
        forall|i: int| 0 <= i < actions.len() ==> !(#[trigger] actions[i] is SetMuted),
    ensures
        muted_after(muted, actions) == muted,
    decreases actions.len(),
{
    if actions.len() > 0 {
        assert forall|i: int| 0 <= i < actions.drop_first().len() implies !(
        #[trigger] actions.drop_first()[i] is SetMuted) by {
            assert(actions.drop_first()[i] == actions[i + 1]);
        }
        lemma_muted_kept(muted, actions.drop_first());
    }
}

proof fn lemma_active_kept(active: Option<Seq<char>>, actions: Seq<Action<Seq<char>>>)
    requires
        forall|i: int| 0 <= i < actions.len() ==> !(#[trigger] actions[i] is SetActive),
    ensures
        active_after(active, actions) == active,
    decreases actions.len(),
{
    if actions.len() > 0 {
        assert forall|i: int| 0 <= i < actions.drop_first().len() implies !(
        #[trigger] actions.drop_first()[i] is SetActive) by {
            assert(actions.drop_first()[i] == actions[i + 1]);
        }
        lemma_active_kept(active, actions.drop_first());
    }
}

proof fn lemma_active_skips(
    active: Option<Seq<char>>,
    head: Seq<Action<Seq<char>>>,
    tail: Seq<Action<Seq<char>>>,
)
    requires
        forall|i: int| 0 <= i < head.len() ==> !(#[trigger] head[i] is SetActive),
    ensures
        active_after(active, head + tail) == active_after(active, tail),
    decreases head.len(),
{
    if head.len() == 0 {
        assert(head + tail =~= tail);
    } else {
        assert((head + tail).drop_first() =~= head.drop_first() + tail);
        assert((head + tail)[0] == head[0]);
        assert forall|i: int| 0 <= i < head.drop_first().len() implies !(
        #[trigger] head.drop_first()[i] is SetActive) by {
            assert(head.drop_first()[i] == head[i + 1]);
        }
        lemma_active_skips(active, head.drop_first(), tail);
    }
}

/// A request to mute the voice mutes it, one to unmute it unmutes it, whatever it was
/// before; no other request does either.
pub proof fn law_muting_mutes(on: bool, req: Request, active: Option<Seq<char>>, muted: bool)
    ensures
        muted_after(muted, planned(Request::SetMuted { on }, active)) == on,
        !(req is SetMuted) ==> muted_after(muted, planned(req, active)) == muted,
        planned(Request::SetMuted { on }, active) == seq![
            Action::<Seq<char>>::SetMuted(on),
            Action::Done,
        ],
{
    let p = planned(Request::SetMuted { on }, active);
    reveal_with_fuel(muted_after, 3);
    assert(p.drop_first()[0] == Action::<Seq<char>>::Done);
    if !(req is SetMuted) {
        lemma_muted_kept(muted, planned(req, active));
    }
}

/// A submit by the user makes its window the active one, whichever it was before; no
/// other request does, and neither does a submit that no user made.
pub proof fn law_submit_makes_its_window_active(
    session: Option<String>,
    queue_session: Option<String>,
    source: Option<WiredAgent>,
    synthetic: bool,
    req: Request,
    active: Option<Seq<char>>,
)
    ensures
        active_after(
            active,
            planned(
                Request::MarkActive { session, queue_session, synthetic, source },
                active,
            ),
        ) == (if synthetic {
            active
        } else {
            text_opt(queue_session)
        }),
        !(req is MarkActive) ==> active_after(active, planned(req, active)) == active,
{
    let p = planned(Request::MarkActive { session, queue_session, synthetic, source }, active);
    if synthetic {
        lemma_active_kept(active, p);
    } else {
        let n = p.len() - 3;
        let head = p.take(n);
        let tail = p.skip(n);
        assert(p =~= head + tail);
        assert(tail[0] == Action::SetActive(text_opt(queue_session)));
        assert forall|i: int| 0 <= i < head.len() implies !(#[trigger] head[i] is SetActive) by {
            assert(head[i] == p[i]);
        }
        lemma_active_skips(active, head, tail);
        let rest = tail.drop_first();
        assert forall|i: int| 0 <= i < rest.len() implies !(#[trigger] rest[i] is SetActive) by {
            assert(rest[i] == p[n + 1 + i]);
        }
        lemma_active_kept(text_opt(queue_session), rest);
        assert(active_after(active, tail) == active_after(text_opt(queue_session), rest));
    }
    if !(req is MarkActive) {
        lemma_active_kept(active, planned(req, active));
    }
}

/// Whatever value a request carries for a part of the engine, that part gets it as it is.
pub proof fn law_values_are_passed_on(
    text: String,
    seconds: u64,
    refresh: bool,
    since: u64,
    active: Option<Seq<char>>,
)
    ensures
        planned(Request::SetProvider { provider: text }, active) == seq![
            Action::SetProvider(text@),
            Action::Done,
        ],
        planned(Request::Reload, active) == seq![
            Action::<Seq<char>>::RequestReload,
            Action::Done,
        ],
        planned(Request::RemoveModel { id: text }, active) == seq![
            Action::Models { remove: Some(text@) },
        ],
        planned(Request::ListModels, active) == seq![Action::<Seq<char>>::Models { remove: None }],
        planned(Request::ForgetSpeaker { name: text }, active) == seq![
            Action::ForgetSpeaker(text@),
        ],
        planned(Request::ListSpeakers, active) == seq![Action::<Seq<char>>::ListSpeakers],
        planned(Request::AgentUsage { refresh }, active) == seq![
            Action::<Seq<char>>::Usage { refresh },
        ],
        planned(Request::Diarize { seconds }, active) == seq![
            Action::<Seq<char>>::Diarize { seconds },
        ],
        planned(Request::EnsureCodexStream { codex_bin: text }, active) == seq![
            Action::EnsureRemote(text@),
        ],
        planned(Request::Ping, active) == seq![Action::<Seq<char>>::Pong],
        planned(Request::ModelStatus, active) == seq![Action::<Seq<char>>::Status],
        planned(Request::AuthorizeSystemStt, active) == seq![Action::<Seq<char>>::Authorize],
        planned(Request::TestRecognitionStart, active) == seq![Action::<Seq<char>>::StartTest],
        planned(Request::TestRecognitionStop, active) == seq![
            Action::<Seq<char>>::StopTest,
            Action::Done,
        ],
        planned(Request::WaitModelStatus { since, timeout_ms: seconds }, active).len() == 1,
        planned(Request::WaitModelStatus { since, timeout_ms: seconds }, active)[0] matches
            Action::WaitStatus { since: s, .. } && s == since,
{
}

/// A wait for a change lasts as long as was asked, but at least a millisecond and at most
/// a minute; a receiver of the dictation is believed as long as it asked, but at least
/// half a second and at most a minute.
pub proof fn law_times_are_kept_in_bounds(
    receiver_id: String,
    since: u64,
    ms: u64,
    active: Option<Seq<char>>,
)
    ensures
        ({
            let p = planned(Request::WaitModelStatus { since, timeout_ms: ms }, active);
            p[0] matches Action::WaitStatus { since: s, timeout_ms } && s == since && 1
                <= timeout_ms <= 60_000 && (1 <= ms <= 60_000 ==> timeout_ms == ms) && (ms == 0
                ==> timeout_ms == 1) && (ms > 60_000 ==> timeout_ms == 60_000)
        }),
        ({
            let p = planned(Request::SetDictationUiReceiver { receiver_id, ttl_ms: ms }, active);
            p.len() == 2 && p[1] is Done && (p[0] matches Action::UiReceiver { for_ms } && 500
                <= for_ms <= 60_000 && (500 <= ms <= 60_000 ==> for_ms == ms) && (ms < 500
                ==> for_ms == 500) && (ms > 60_000 ==> for_ms == 60_000))
        }),
{
}

/// What is to be said is handed to the voice word for word, for the session and the
/// client that asked, and nothing else is done.
pub proof fn law_speech_is_passed_on_word_for_word(
    text: String,
    tts_args: Option<Json>,
    session: String,
    detection_text: Option<String>,
    narrated: Option<String>,
    narration_id: Option<String>,
    source: Option<WiredAgent>,
    active: Option<Seq<char>>,
)
    ensures
        planned(Request::Speak { text, tts_args, session, source }, active) == seq![
            Action::Speak { text: text@, session: session@, source },
        ],
        planned(
            Request::SpeakNarration {
                text,
                detection_text,
                session: narrated,
                narration_id,
                source,
            },
            active,
        ) == seq![
            Action::Narrate {
                text: text@,
                detection_text: text_opt(detection_text),
                session: text_opt(narrated),
                narration_id: text_opt(narration_id),
                source,
            },
        ],
{
}

/// A cue is played as it is named: in the window that is named, else in the active one.
pub proof fn law_cue_plays_where_it_is_asked(
    event: String,
    session: Option<String>,
    source: Option<WiredAgent>,
    active: Option<Seq<char>>,
)
    ensures
        planned(Request::Earcon { event, session, source }, active) == seq![
            Action::Earcon {
                event: event@,
                session: match session {
                    Some(s) => Some(s@),
                    None => active,
                },
                source,
            },
        ],
{
}

/// The stop of a session silences what is said for it and what is kept of it for the end
/// of its turn, and no other window.
pub proof fn law_stop_silences_its_session(
    session: String,
    source: Option<WiredAgent>,
    active: Option<Seq<char>>,
)
    ensures
        planned(Request::Stop { session, source }, active) == seq![
            Action::ClearSession(Some(session@)),
            Action::ClearSession(Some("grok-stop:"@ + session@)),
            Action::Done,
        ],
{
}

/// A window that is greeted is linked to its session and greeted in the voice of its
/// client; the session is mentioned to the observer of Codex and, where the client is
/// Grok, to that of Grok.
pub proof fn law_greeting_links_and_greets(
    session: String,
    queue_session: Option<String>,
    source: Option<WiredAgent>,
    active: Option<Seq<char>>,
)
    ensures
        ({
            let link = Action::Link {
                logical: Some(session@),
                queue: text_opt(queue_session),
                source,
            };
            let greet = Action::Greet { queue: text_opt(queue_session), source };
            let p = planned(
                Request::GreetSession { session: Some(session), queue_session, source },
                active,
            );
            &&& source == Some(WiredAgent::Grok) ==> p == seq![
                Action::NudgeCodex(session@),
                Action::NudgeGrok(session@),
                link,
                greet,
                Action::Done,
            ]
            &&& source != Some(WiredAgent::Grok) ==> p == seq![
                Action::NudgeCodex(session@),
                link,
                greet,
                Action::Done,
            ]
        }),
        planned(Request::GreetSession { session: None, queue_session, source }, active) == seq![
            Action::Link { logical: None, queue: text_opt(queue_session), source },
            Action::Greet { queue: text_opt(queue_session), source },
            Action::Done,
        ],
{
    assert(planned(Request::GreetSession { session: None, queue_session, source }, active)
        =~= seq![
        Action::Link { logical: None, queue: text_opt(queue_session), source },
        Action::Greet { queue: text_opt(queue_session), source },
        Action::Done,
    ]);
    let link = Action::Link { logical: Some(session@), queue: text_opt(queue_session), source };
    let greet = Action::Greet { queue: text_opt(queue_session), source };
    let p = planned(
        Request::GreetSession { session: Some(session), queue_session, source },
        active,
    );
    if source == Some(WiredAgent::Grok) {
        assert(p =~= seq![
            Action::NudgeCodex(session@),
            Action::NudgeGrok(session@),
            link,
            greet,
            Action::Done,
        ]);
    } else {
        assert(p =~= seq![Action::NudgeCodex(session@), link, greet, Action::Done]);
    }
}

/// A submit mentions its session and links it to its window, as a greeting does; one by
/// the user then makes the window active and counts as a submit in it.
pub proof fn law_submit_links_its_window(
    session: String,
    queue_session: Option<String>,
    source: Option<WiredAgent>,
    active: Option<Seq<char>>,
)
    ensures
        ({
            let link = Action::Link {
                logical: Some(session@),
                queue: text_opt(queue_session),
                source,
            };
            let user = planned(
                Request::MarkActive {
                    session: Some(session),
                    queue_session,
                    synthetic: false,
                    source,
                },
                active,
            );
            let other = planned(
                Request::MarkActive {
                    session: Some(session),
                    queue_session,
                    synthetic: true,
                    source,
                },
                active,
            );
            let named = if source == Some(WiredAgent::Grok) {
                seq![Action::NudgeCodex(session@), Action::NudgeGrok(session@), link]
            } else {
                seq![Action::NudgeCodex(session@), link]
            };
            &&& user == named + seq![
                Action::SetActive(text_opt(queue_session)),
                Action::Submitted(text_opt(queue_session)),
                Action::Done,
            ]
            &&& other == named + seq![Action::Done]
        }),
        planned(
            Request::MarkActive { session: None, queue_session, synthetic: true, source },
            active,
        ) == seq![
            Action::Link { logical: None, queue: text_opt(queue_session), source },
            Action::Done,
        ],
{
    let link = Action::Link { logical: Some(session@), queue: text_opt(queue_session), source };
    let named = if source == Some(WiredAgent::Grok) {
        seq![Action::NudgeCodex(session@), Action::NudgeGrok(session@), link]
    } else {
        seq![Action::NudgeCodex(session@), link]
    };
    assert(planned(
        Request::MarkActive { session: Some(session), queue_session, synthetic: false, source },
        active,
    ) =~= named + seq![
        Action::SetActive(text_opt(queue_session)),
        Action::Submitted(text_opt(queue_session)),
        Action::Done,
    ]);
    assert(planned(
        Request::MarkActive { session: Some(session), queue_session, synthetic: true, source },
        active,
    ) =~= named + seq![Action::Done]);
    assert(planned(
        Request::MarkActive { session: None, queue_session, synthetic: true, source },
        active,
    ) =~= seq![
        Action::Link { logical: None, queue: text_opt(queue_session), source },
        Action::Done,
    ]);
}

/// A session that ends is forgotten: by the narration, by the observer of Grok where it
/// was Grok's, and by the voice, which drops its window. Where no window is known,
/// everything is silenced.
pub proof fn law_ended_session_is_forgotten(
    session: String,
    queue_session: Option<String>,
    source: Option<WiredAgent>,
    active: Option<Seq<char>>,
)
    ensures
        ({
            let p = planned(
                Request::SessionEnd { session: Some(session), queue_session, source },
                active,
            );
            let gone = if source == Some(WiredAgent::Grok) {
                seq![Action::ForgetNarration(session@), Action::ForgetGrok(session@)]
            } else {
                seq![Action::ForgetNarration(session@)]
            };
            &&& queue_session is None ==> p == gone + seq![
                Action::ClearAll,
                Action::Unlink { logical: Some(session@), queue: None },
                Action::Done,
            ]
            &&& queue_session matches Some(q) ==> p == gone + seq![
                Action::EndSession(Some(q@)),
                Action::Unlink { logical: Some(session@), queue: Some(q@) },
                Action::Done,
            ]
        }),
        planned(Request::SessionEnd { session: None, queue_session: None, source }, active) == seq![
            Action::<Seq<char>>::ClearAll,
            Action::Unlink { logical: None, queue: None },
            Action::Done,
        ],
{
    assert(planned(Request::SessionEnd { session: None, queue_session: None, source }, active)
        =~= seq![
        Action::<Seq<char>>::ClearAll,
        Action::Unlink { logical: None, queue: None },
        Action::Done,
    ]);
}

/// A speaker is remembered under the name that was given, without the space around it;
/// a blank name is refused.
pub proof fn law_speaker_is_enrolled_under_a_name(
    name: String,
    seconds: u64,
    active: Option<Seq<char>>,
)
    ensures
        ({
            let p = planned(Request::Enroll { name, seconds }, active);
            &&& p.len() == 1
            &&& trim(name@).len() > 0 ==> p[0] == (Action::Enroll { name: trim(name@), seconds })
            &&& trim(name@).len() == 0 ==> p[0] == Action::Error(
                "enroll: name must not be empty"@,
            )
        }),
{
}

/// A submit that was typed silences its own window and the other windows, each where the
/// settings say so, and it acts on the window of the submit.
pub proof fn law_typed_submit_silences_what_is_set(
    clears_current: bool,
    clears_other: bool,
    queue: Option<Seq<char>>,
)
    ensures
        ({
            let p = silenced(false, clears_current, clears_other, queue);
            &&& p.contains(Action::ClearSession(queue)) <==> clears_current
            &&& p.contains(Action::CancelOthers(queue)) <==> clears_other
            &&& forall|i: int|
                0 <= i < p.len() ==> (#[trigger] p[i] == Action::ClearSession(queue) || p[i]
                    == Action::CancelOthers(queue))
            &&& p.no_duplicates()
            &&& clears_current && clears_other ==> p[0] == Action::ClearSession(queue)
        }),
{
    let p = silenced(false, clears_current, clears_other, queue);
    if clears_current {
        assert(p[0] == Action::ClearSession(queue));
    }
    if clears_other {
        assert(p.last() == Action::CancelOthers(queue));
    }
}

/// What is written about a request names its session and its window, a dash for either
/// that it does not name; of what is to be said only the length is written.
pub proof fn law_log_names_session_and_window(
    s: String,
    q: String,
    text: String,
    tts_args: Option<Json>,
    source: Option<WiredAgent>,
    active: Option<Seq<char>>,
)
    ensures
        logged(
            Request::GreetSession { session: Some(s), queue_session: Some(q), source },
            active,
        ) == Some("greet_session"@ + " session="@ + s@ + " queue_session="@ + q@),
        logged(
            Request::GreetSession { session: None, queue_session: None, source },
            active,
        ) == Some("greet_session"@ + " session="@ + "-"@ + " queue_session="@ + "-"@),
        logged(
            Request::SessionEnd { session: None, queue_session: Some(q), source },
            active,
        ) == Some("session_end"@ + " session="@ + "-"@ + " queue_session="@ + q@),
        logged(
            Request::MarkActive {
                session: Some(s),
                queue_session: None,
                synthetic: true,
                source,
            },
            active,
        ) == Some(
            "mark_active"@ + " session="@ + s@ + " queue_session="@ + "-"@ + " synthetic=true"@,
        ),
        logged(
            Request::MarkActive {
                session: None,
                queue_session: Some(q),
                synthetic: false,
                source,
            },
            active,
        ) == Some(
            "mark_active"@ + " session="@ + "-"@ + " queue_session="@ + q@ + " synthetic=false"@,
        ),
        logged(Request::Speak { text, tts_args, session: s, source }, active) == Some(
            "speak session="@ + s@ + " chars="@ + decimal_digits(text@.len()),
        ),
        logged(Request::Stop { session: s, source }, active) == Some("stop session="@ + s@),
        logged(Request::Earcon { event: text, session: Some(s), source }, active) == Some(
            "earcon event="@ + text@ + " session="@ + s@,
        ),
        logged(Request::Earcon { event: text, session: None, source }, active) == Some(
            "earcon event="@ + text@ + " session="@ + (match active {
                Some(a) => a,
                None => "-"@,
            }),
        ),
{
}

/// What is asked of the engine's own parts is not written to the log.
pub proof fn law_log_is_about_sessions(req: Request, active: Option<Seq<char>>)
    ensures
        logged(req, active) is Some <==> (req is GreetSession || req is MarkActive || req is Speak
            || req is SetDictationUiReceiver || req is Stop || req is SessionEnd || req is Earcon),
{
}

/// What is written about a request is attributed to the client that it names.
pub proof fn law_log_is_attributed_to_the_client(
    session: Option<String>,
    queue_session: Option<String>,
    text: String,
    tts_args: Option<Json>,
    id: Option<String>,
    synthetic: bool,
    source: Option<WiredAgent>,
)
    ensures
        client_of(Request::GreetSession { session, queue_session, source }) == source,
        client_of(Request::MarkActive { session, queue_session, synthetic, source }) == source,
        client_of(Request::Speak { text, tts_args, session: text, source }) == source,
        client_of(
            Request::SpeakNarration {
                text,
                detection_text: id,
                session,
                narration_id: id,
                source,
            },
        ) == source,
        client_of(Request::Stop { session: text, source }) == source,
        client_of(Request::SessionEnd { session, queue_session, source }) == source,
        client_of(Request::Earcon { event: text, session, source }) == source,
{
}

/// The names of a recording's stretches follow the match: every stretch of a matched
/// speaker has that speaker's name, two stretches of one speaker have one name, and a
/// stretch of another speaker keeps its own.
pub proof fn law_stretches_are_named_by_speaker(
    a: SegmentLabel,
    b: SegmentLabel,
    names: Map<Seq<char>, String>,
    name: String,
)
    ensures
        named_as(a, names.insert(a.speaker@, name)) == Some(name@),
        a.speaker@ != b.speaker@ ==> named_as(b, names.insert(a.speaker@, name)) == named_as(
            b,
            names,
        ),
        named_as(a, Map::empty()) == (match a.name {
            Some(n) => Some(n@),
            None => None,
        }),
{
}

} // verus!
