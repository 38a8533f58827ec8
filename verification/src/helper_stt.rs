//! Dictation through the helper: what its transcription does to the dictation that is
//! under way.
//!
//! The final pass is slow and ends on its own time, so every session has a number that
//! it must still hold when its text comes.

use crate::engine::paste::{deposited, dropped_paste, FinalState, FinalView, PasteBuf, PasteView};
use crate::text::{trim, trimmed};
use vstd::prelude::*;

verus! {

/// The final text of session `epoch` has come; whether it counts. It does not where the
/// dictation has been given up or another has begun.
pub fn deposit_final(p: &mut PasteBuf, epoch: u64, text: &str) -> (r: bool)
    ensures
        r == (old(p)@.epoch == epoch),
        final(p)@ == deposited(old(p)@, epoch, text@),
{
    if p.epoch != epoch {
        return false;
    }
    p.partial = String::new();
    let t = trimmed(text);
    p.final_state = if t.as_str().is_empty() {
        FinalState::Empty
    } else {
        FinalState::Ready(t)
    };
    true
}

/// A dictation once its session has begun.
pub open spec fn listening(p: PasteView) -> PasteView {
    PasteView { partial: Seq::empty(), epoch: p.epoch.wrapping_add(1), ..p }
}

/// A session begins; its number.
pub fn begin_session(p: &mut PasteBuf) -> (r: u64)
    ensures
        final(p)@ == listening(old(p)@),
        r == final(p)@.epoch,
{
    p.partial = String::new();
    p.epoch = p.epoch.wrapping_add(1);
    p.epoch
}

/// The text so far of a session.
pub fn note_partial(p: &mut PasteBuf, text: &str)
    ensures
        final(p)@ == (PasteView { partial: text@, ..old(p)@ }),
{
    p.partial = text.to_owned();
}

/// A dictation once its session was broken off.
pub open spec fn aborted(p: PasteView) -> PasteView {
    PasteView {
        partial: Seq::empty(),
        final_state: FinalView::Idle,
        epoch: p.epoch.wrapping_add(1),
        ..p
    }
}

/// A session is broken off: its text is dropped, now and when it comes.
pub fn abort_session(p: &mut PasteBuf)
    ensures
        final(p)@ == aborted(old(p)@),
{
    p.partial = String::new();
    p.final_state = FinalState::Idle;
    p.epoch = p.epoch.wrapping_add(1);
}

// ── The sessions ─────────────────────────────────────────────────────────────

/// How long a session that is broken off is waited for, in milliseconds: the engine must
/// not hang on a helper that does.
pub const JOIN_TIMEOUT: u64 = 3_000;

/// How often it is looked at meanwhile.
pub const POLL_INTERVAL: u64 = 20;

/// Dictation through the helper, one session at a time.
pub struct HelperStt {
    listening: bool,
    epoch: u64,
}

/// A [`HelperStt`] as a mathematical value.
pub struct SttView {
    /// A session is under way.
    pub listening: bool,
    /// Its number, or that of the last one.
    pub epoch: u64,
}

impl View for HelperStt {
    type V = SttView;

    closed spec fn view(&self) -> SttView {
        SttView { listening: self.listening, epoch: self.epoch }
    }
}

/// What to do about a session that is broken off and has not ended.
#[derive(Debug, Clone, Copy, PartialEq, Eq, Structural)]
pub enum JoinStep {
    /// It has ended.
    Ended,
    /// Look again after [`POLL_INTERVAL`].
    Wait,
    /// It is left to itself.
    GiveUp,
}

impl HelperStt {
    /// No session is under way.
    pub fn new() -> (r: Self)
        ensures
            r@ == (SttView { listening: false, epoch: 0 }),
    {
        HelperStt { listening: false, epoch: 0 }
    }

    /// Whether a session is under way.
    pub fn is_listening(&self) -> (r: bool)
        ensures
            r == self@.listening,
    {
        self.listening
    }

    /// Begins a session, unless one is under way; whether one is under way then, which is
    /// always so. The helper is to be asked to listen where there was none before.
    pub fn start(&mut self, p: &mut PasteBuf) -> (r: bool)
        ensures
            r,
            final(self)@ == (if old(self)@.listening {
                old(self)@
            } else {
                SttView { listening: true, epoch: final(p)@.epoch }
            }),
            final(p)@ == (if old(self)@.listening {
                old(p)@
            } else {
                listening(old(p)@)
            }),
    {
        if self.listening {
            return true;
        }
        self.epoch = begin_session(p);
        self.listening = true;
        true
    }

    /// Ends a session; the number under which its final text is to be deposited, where
    /// there is a session.
    pub fn stop(&mut self) -> (r: Option<u64>)
        ensures
            r == (if old(self)@.listening {
                Some(old(self)@.epoch)
            } else {
                None
            }),
            final(self)@ == (SttView { listening: false, ..old(self)@ }),
    {
        if self.listening {
            self.listening = false;
            Some(self.epoch)
        } else {
            None
        }
    }

    /// Breaks a session off; whether there is one to wait for. The dictation is dropped
    /// either way.
    pub fn abort(&mut self, p: &mut PasteBuf) -> (r: bool)
        ensures
            r == old(self)@.listening,
            final(self)@ == (SttView { listening: false, ..old(self)@ }),
            final(p)@ == aborted(old(p)@),
    {
        let was = self.listening;
        self.listening = false;
        abort_session(p);
        was
    }
}

/// What to do about a session that was broken off `waited` milliseconds ago.
pub fn join_step(ended: bool, waited: u64) -> (r: JoinStep)
    ensures
        r == (if waited >= JOIN_TIMEOUT {
            JoinStep::GiveUp
        } else if ended {
            JoinStep::Ended
        } else {
            JoinStep::Wait
        }),
{
    if waited >= JOIN_TIMEOUT {
        JoinStep::GiveUp
    } else if ended {
        JoinStep::Ended
    } else {
        JoinStep::Wait
    }
}

// ── Laws ─────────────────────────────────────────────────────────────────────

/// A final text that comes after its dictation was given up, broken off or followed by
/// another changes nothing.
pub proof fn law_late_text_is_dropped(p: PasteView, text: Seq<char>)
    ensures
        deposited(dropped_paste(p), p.epoch, text) == dropped_paste(p),
        deposited(aborted(p), p.epoch, text) == aborted(p),
        deposited(listening(p), p.epoch, text) == listening(p),
{
}

/// A final text that comes in time waits to be pasted, trimmed; one with nothing in it
/// says so.
pub proof fn law_text_in_time_waits(p: PasteView, text: Seq<char>)
    ensures
        deposited(p, p.epoch, text).final_state is Ready <==> trim(text).len() > 0,
        deposited(p, p.epoch, text).final_state is Empty <==> trim(text).len() == 0,
        trim(text).len() > 0 ==> deposited(p, p.epoch, text).final_state == FinalView::Ready(
            trim(text),
        ),
{
}

/// A session begins with no text and a number of its own, and keeps a text that waits to
/// be pasted; one that is broken off leaves none, and its number is used up.
pub proof fn law_sessions_begin_and_break_off(p: PasteView)
    ensures
        listening(p).partial.len() == 0,
        listening(p).epoch != p.epoch,
        p.epoch < u64::MAX ==> listening(p).epoch == p.epoch + 1,
        listening(p).final_state == p.final_state,
        listening(p).target == p.target && listening(p).caps_held == p.caps_held,
        aborted(p).partial.len() == 0,
        aborted(p).final_state is Idle,
        aborted(p).epoch != p.epoch,
        aborted(p).target == p.target && aborted(p).refused_until == p.refused_until,
{
}

} // verus!
