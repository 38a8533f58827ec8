//! What is shown of the engine: the counter that moves when something changed, and the
//! recent events of the Caps Lock key.

use vstd::prelude::*;

verus! {

/// Moves whenever something that is shown has changed, so that who waits for a change
/// sees it.
#[derive(Debug, Clone, Copy, PartialEq, Eq, Structural)]
pub struct StatusGate {
    pub seq: u64,
}

impl StatusGate {
    /// Nothing has changed yet.
    pub fn new() -> (r: Self)
        ensures
            r == (StatusGate { seq: 0 }),
    {
        StatusGate { seq: 0 }
    }

    /// The counter.
    pub fn seq(&self) -> (r: u64)
        ensures
            r == self.seq,
    {
        self.seq
    }

    /// Something has changed.
    pub fn bump(&mut self)
        ensures
            *final(self) == bumped(*old(self)),
    {
        self.seq = self.seq.wrapping_add(1);
    }
}

/// The counter after a change.
pub open spec fn bumped(g: StatusGate) -> StatusGate {
    StatusGate { seq: g.seq.wrapping_add(1) }
}

/// A change always moves the counter.
pub proof fn law_change_is_seen(g: StatusGate)
    ensures
        bumped(g).seq != g.seq,
{
}

/// What the Caps Lock key did, or what was done for it.
#[derive(Debug, Clone, Copy, PartialEq, Eq, Structural)]
pub enum CapsKind {
    Press,
    Release,
    Start,
    Stop,
    Confirm,
    Cancel,
    Refused,
}

/// An event of the Caps Lock key.
#[derive(Debug, Clone, Copy, PartialEq, Eq, Structural)]
pub struct CapsEvent {
    pub ts_ms: u64,
    pub kind: CapsKind,
}

/// The last events of a list, at most `max` of them.
pub open spec fn last_events(events: Seq<CapsEvent>, max: nat) -> Seq<CapsEvent> {
    if events.len() <= max {
        events
    } else {
        events.skip(events.len() - max)
    }
}

/// Adds an event to a list that keeps the last `max`, the newest at its end.
pub fn record_event(events: &mut Vec<CapsEvent>, event: CapsEvent, max: usize)
    ensures
        final(events)@ == last_events(old(events)@.push(event), max as nat),
{
    events.push(event);
    let ghost all = events@;
    assert(all.skip(0) =~= all);
    let ghost mut gone: int = 0;
    while events.len() > max
        invariant
            0 <= gone <= all.len(),
            events@ == all.skip(gone),
            gone == 0 || gone <= all.len() - max,
        decreases events.len(),
    {
        let _ = events.remove(0);
        proof {
            assert(all.skip(gone).remove(0) =~= all.skip(gone + 1));
            gone = gone + 1;
        }
    }
}

} // verus!
