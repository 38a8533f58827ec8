//! The dictation that is under way: its text so far, the final text that waits to be
//! pasted, and what is shown of both.

use crate::text::{text_opt, trim};
use vstd::prelude::*;

verus! {

/// How long the sign of a refused tap is shown, in milliseconds.
pub const DICTATION_REFUSAL_MS: u64 = 1_500;

/// How far the final text of a dictation has come.
#[derive(Debug, PartialEq, Eq)]
pub enum FinalState {
    /// None is expected.
    Idle,
    /// The dictation was stopped; its final text has not come.
    Armed,
    /// The final text, to be pasted.
    Ready(String),
    /// The final text has come and is empty.
    Empty,
}

/// A [`FinalState`] by its characters.
pub enum FinalView {
    Idle,
    Armed,
    Ready(Seq<char>),
    Empty,
}

impl View for FinalState {
    type V = FinalView;

    open spec fn view(&self) -> FinalView {
        match self {
            FinalState::Idle => FinalView::Idle,
            FinalState::Armed => FinalView::Armed,
            FinalState::Ready(t) => FinalView::Ready(t@),
            FinalState::Empty => FinalView::Empty,
        }
    }
}

/// The dictation that is under way, shared by the engine, what transcribes, and what
/// shows it.
#[derive(Debug, PartialEq, Eq)]
pub struct PasteBuf {
    /// The text so far.
    pub partial: String,
    /// The final text.
    pub final_state: FinalState,
    /// The application that was in front when the dictation began.
    pub target: Option<String>,
    /// There is something to paste into.
    pub has_paste_target: bool,
    /// The Caps Lock key is down.
    pub caps_held: bool,
    /// The number of the dictation: a final text of an earlier one is dropped.
    pub epoch: u64,
    /// Until when the sign of a refused tap is shown.
    pub refused_until: Option<u64>,
}

/// A [`PasteBuf`] as a mathematical value.
#[verifier::ext_equal]
pub struct PasteView {
    pub partial: Seq<char>,
    pub final_state: FinalView,
    pub target: Option<Seq<char>>,
    pub has_paste_target: bool,
    pub caps_held: bool,
    pub epoch: u64,
    pub refused_until: Option<u64>,
}

impl View for PasteBuf {
    type V = PasteView;

    open spec fn view(&self) -> PasteView {
        PasteView {
            partial: self.partial@,
            final_state: self.final_state@,
            target: text_opt(self.target),
            has_paste_target: self.has_paste_target,
            caps_held: self.caps_held,
            epoch: self.epoch,
            refused_until: self.refused_until,
        }
    }
}

/// No dictation has been made.
pub open spec fn fresh_paste() -> PasteView {
    PasteView {
        partial: Seq::empty(),
        final_state: FinalView::Idle,
        target: None,
        has_paste_target: true,
        caps_held: false,
        epoch: 0,
        refused_until: None,
    }
}

/// A final text is expected, unless one has come already.
pub open spec fn armed_paste(p: PasteView) -> PasteView {
    PasteView {
        final_state: if p.final_state is Idle {
            FinalView::Armed
        } else {
            p.final_state
        },
        ..p
    }
}

/// No final text is expected; one that waits to be pasted stays.
pub open spec fn disarmed_paste(p: PasteView) -> PasteView {
    PasteView {
        final_state: if p.final_state is Armed || p.final_state is Empty {
            FinalView::Idle
        } else {
            p.final_state
        },
        ..p
    }
}

/// The dictation is given up: nothing is left of it, and its final text will not count.
pub open spec fn dropped_paste(p: PasteView) -> PasteView {
    PasteView {
        partial: Seq::empty(),
        final_state: FinalView::Idle,
        target: None,
        epoch: p.epoch.wrapping_add(1),
        ..p
    }
}

/// The final text of dictation `epoch` has come. One of an earlier dictation is dropped.
pub open spec fn deposited(p: PasteView, epoch: u64, text: Seq<char>) -> PasteView {
    if p.epoch != epoch {
        p
    } else {
        PasteView {
            partial: Seq::empty(),
            final_state: if trim(text).len() == 0 {
                FinalView::Empty
            } else {
                FinalView::Ready(trim(text))
            },
            ..p
        }
    }
}

impl PasteBuf {
    /// No dictation has been made. There is something to paste into until it is seen
    /// that there is not.
    pub fn new() -> (r: Self)
        ensures
            r@ == fresh_paste(),
    {
        PasteBuf {
            partial: String::new(),
            final_state: FinalState::Idle,
            target: None,
            has_paste_target: true,
            caps_held: false,
            epoch: 0,
            refused_until: None,
        }
    }

    /// A final text is expected, unless one has come already.
    pub fn arm(&mut self)
        ensures
            final(self)@ == armed_paste(old(self)@),
    {
        if matches!(self.final_state, FinalState::Idle) {
            self.final_state = FinalState::Armed;
        }
    }

    /// No final text is expected; one that waits to be pasted stays.
    pub fn disarm(&mut self)
        ensures
            final(self)@ == disarmed_paste(old(self)@),
    {
        if matches!(self.final_state, FinalState::Armed | FinalState::Empty) {
            self.final_state = FinalState::Idle;
        }
    }

    /// The dictation is given up.
    pub fn drop_dictation(&mut self)
        ensures
            final(self)@ == dropped_paste(old(self)@),
    {
        self.partial = String::new();
        self.final_state = FinalState::Idle;
        self.target = None;
        self.epoch = self.epoch.wrapping_add(1);
    }
}

/// Whether the sign of a refused tap is shown at `now`.
pub open spec fn refusal_shown(refused_until: Option<u64>, now: u64) -> bool {
    refused_until is Some && now < refused_until->0
}

/// Whether the sign of a refused tap is shown at `now`.
pub fn refusal_live(refused_until: Option<u64>, now: u64) -> (r: bool)
    ensures
        r == refusal_shown(refused_until, now),
{
    match refused_until {
        Some(t) => now < t,
        None => false,
    }
}

/// What is shown of a dictation: its text, and whether it waits to be pasted.
pub open spec fn preview(f: FinalView, partial: Seq<char>, caps_held: bool) -> (Seq<char>, bool) {
    if caps_held {
        (partial, false)
    } else {
        match f {
            FinalView::Ready(text) => (text, true),
            FinalView::Armed | FinalView::Empty => (partial, true),
            FinalView::Idle => (partial, false),
        }
    }
}

/// What is shown of a dictation: its text, and whether it waits to be pasted. While the
/// key is down the final text is not shown, since the press may become a cancel.
pub fn dictation_preview(final_state: &FinalState, partial: &str, caps_held: bool) -> (r: (
    String,
    bool,
))
    ensures
        (r.0@, r.1) == preview(final_state@, partial@, caps_held),
{
    if caps_held {
        return (partial.to_owned(), false);
    }
    match final_state {
        FinalState::Ready(text) => (text.as_str().to_owned(), true),
        FinalState::Armed | FinalState::Empty => (partial.to_owned(), true),
        FinalState::Idle => (partial.to_owned(), false),
    }
}

} // verus!
