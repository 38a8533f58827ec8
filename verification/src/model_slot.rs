//! Whether a model of the helper is loaded, and why not.

use crate::status::{bumped, StatusGate};
use crate::text::{same_text, text_opt};
use vstd::prelude::*;

verus! {

/// What the helper has said of a model.
#[derive(Debug, PartialEq, Eq)]
pub enum ModelState {
    Idle,
    Loaded,
    Failed(String),
}

/// A [`ModelState`] by its characters.
pub enum ModelView {
    Idle,
    Loaded,
    Failed(Seq<char>),
}

impl View for ModelState {
    type V = ModelView;

    open spec fn view(&self) -> ModelView {
        match self {
            ModelState::Idle => ModelView::Idle,
            ModelState::Loaded => ModelView::Loaded,
            ModelState::Failed(m) => ModelView::Failed(m@),
        }
    }
}

/// What is known of a model.
pub struct ModelSlot {
    state: ModelState,
}

impl View for ModelSlot {
    type V = ModelView;

    closed spec fn view(&self) -> ModelView {
        self.state@
    }
}

fn same_state(a: &ModelState, b: &ModelState) -> (r: bool)
    ensures
        r == (a@ == b@),
{
    match (a, b) {
        (ModelState::Idle, ModelState::Idle) => true,
        (ModelState::Loaded, ModelState::Loaded) => true,
        (ModelState::Failed(x), ModelState::Failed(y)) => same_text(x.as_str(), y.as_str()),
        _ => false,
    }
}

impl ModelSlot {
    /// Nothing is known yet.
    pub fn new() -> (r: Self)
        ensures
            r@ == ModelView::Idle,
    {
        ModelSlot { state: ModelState::Idle }
    }

    /// The helper has said what holds now; whether that is a change. Only a change moves
    /// the counter.
    pub fn transition(&mut self, new_state: ModelState, gate: &mut StatusGate) -> (r: bool)
        ensures
            final(self)@ == new_state@,
            r == (old(self)@ != new_state@),
            *final(gate) == (if r {
                bumped(*old(gate))
            } else {
                *old(gate)
            }),
    {
        if same_state(&self.state, &new_state) {
            return false;
        }
        self.state = new_state;
        gate.bump();
        true
    }

    /// Forgets a failure; a loaded model stays loaded.
    pub fn clear_error(&mut self, gate: &mut StatusGate)
        ensures
            final(self)@ == (if old(self)@ is Failed {
                ModelView::Idle
            } else {
                old(self)@
            }),
            *final(gate) == (if old(self)@ is Failed {
                bumped(*old(gate))
            } else {
                *old(gate)
            }),
    {
        if matches!(self.state, ModelState::Failed(_)) {
            self.state = ModelState::Idle;
            gate.bump();
        }
    }

    /// A request went to the model, so that it counts as loaded; a failure is not
    /// painted over.
    pub fn mark_loaded_optimistic(&mut self)
        ensures
            final(self)@ == (if old(self)@ is Idle {
                ModelView::Loaded
            } else {
                old(self)@
            }),
    {
        if matches!(self.state, ModelState::Idle) {
            self.state = ModelState::Loaded;
        }
    }

    /// Whether the model is loaded.
    pub fn is_loaded(&self) -> (r: bool)
        ensures
            r == (self@ is Loaded),
    {
        matches!(self.state, ModelState::Loaded)
    }

    /// Why the model failed, where it did.
    pub fn error(&self) -> (r: Option<String>)
        ensures
            text_opt(r) == (match self@ {
                ModelView::Failed(m) => Some(m),
                _ => None,
            }),
    {
        match &self.state {
            ModelState::Failed(m) => Some(m.as_str().to_owned()),
            _ => None,
        }
    }
}

} // verus!
