//! The place of the helper process: the process, how many there have been, and whether
//! its end is meant.

use vstd::prelude::*;

verus! {

/// The place of a process.
pub struct ChildSlot<C> {
    child: Option<C>,
    generation: u64,
    expected_eof: bool,
}

/// A [`ChildSlot`] as a mathematical value.
pub struct SlotView<C> {
    pub child: Option<C>,
    /// How many processes there have been.
    pub generation: u64,
    /// The end of the process is meant.
    pub expected_eof: bool,
}

impl<C> View for ChildSlot<C> {
    type V = SlotView<C>;

    closed spec fn view(&self) -> SlotView<C> {
        SlotView {
            child: self.child,
            generation: self.generation,
            expected_eof: self.expected_eof,
        }
    }
}

/// A place that no process has been in.
pub open spec fn unused<C>() -> SlotView<C> {
    SlotView { child: None, generation: 0, expected_eof: false }
}

/// A place after a process has come up.
pub open spec fn installed<C>(v: SlotView<C>, child: C) -> SlotView<C> {
    SlotView {
        child: Some(child),
        generation: v.generation.wrapping_add(1),
        expected_eof: false,
    }
}

/// A place whose process is about to be ended.
pub open spec fn stopping<C>(v: SlotView<C>) -> SlotView<C> {
    SlotView { expected_eof: true, ..v }
}

/// A place after its process was taken out.
pub open spec fn reaped<C>(v: SlotView<C>) -> SlotView<C> {
    SlotView { child: None, expected_eof: true, ..v }
}

impl<C> ChildSlot<C> {
    /// An empty place.
    pub fn new() -> (r: Self)
        ensures
            r@ == unused::<C>(),
    {
        ChildSlot { child: None, generation: 0, expected_eof: false }
    }

    /// A process has come up. Its end is not meant, whatever was said of the last one.
    pub fn install(&mut self, child: C)
        ensures
            final(self)@ == installed(old(self)@, child),
    {
        self.child = Some(child);
        self.generation = self.generation.wrapping_add(1);
        self.expected_eof = false;
    }

    /// The process is about to be ended.
    pub fn begin_deliberate_stop(&mut self)
        ensures
            final(self)@ == stopping(old(self)@),
    {
        self.expected_eof = true;
    }

    /// Takes the process out. It never leaves without its end being meant.
    pub fn reap(&mut self) -> (r: Option<C>)
        ensures
            r == old(self)@.child,
            final(self)@ == reaped(old(self)@),
    {
        self.expected_eof = true;
        self.child.take()
    }

    /// Whether there is a process.
    pub fn is_running(&self) -> (r: bool)
        ensures
            r == (self@.child is Some),
    {
        self.child.is_some()
    }

    /// The number of the process, where there is one.
    pub fn running_gen(&self) -> (r: Option<u64>)
        ensures
            r == (if self@.child is Some {
                Some(self@.generation)
            } else {
                None
            }),
    {
        if self.child.is_some() {
            Some(self.generation)
        } else {
            None
        }
    }

    /// How many processes there have been; it outlives them.
    pub fn generation(&self) -> (r: u64)
        ensures
            r == self@.generation,
    {
        self.generation
    }

    /// Whether there is a process, and whether it has exited, given whether a process in
    /// this place would be seen to have.
    pub fn probe(&self, exited: bool) -> (r: (bool, bool))
        ensures
            r == (self@.child is Some, self@.child is Some && exited),
    {
        (self.child.is_some(), self.child.is_some() && exited)
    }

    /// The process, to be looked at.
    pub fn child(&self) -> (r: Option<&C>)
        ensures
            r is Some <==> self@.child is Some,
            r is Some ==> *r->0 == self@.child->0,
    {
        self.child.as_ref()
    }

    /// Whether the end of the process is meant.
    pub fn eof_was_expected(&self) -> (r: bool)
        ensures
            r == self@.expected_eof,
    {
        self.expected_eof
    }
}

/// Whether an empty place that was used says that the end of its process was meant.
pub open spec fn leaves_meant<C>(v: SlotView<C>) -> bool {
    v.child is None && v.generation > 0 ==> v.expected_eof
}

/// No process ever leaves its place without its end being meant: that holds of a new
/// place, and whatever is done with a place keeps it.
pub proof fn law_no_process_leaves_unmeant<C>(v: SlotView<C>, child: C)
    ensures
        leaves_meant(unused::<C>()),
        leaves_meant(v) ==> leaves_meant(installed(v, child)) && leaves_meant(stopping(v))
            && leaves_meant(reaped(v)),
{
}

/// The end of a process that has come up is not meant until somebody says so, whatever
/// was said of the process before it; and each process has a number of its own.
pub proof fn law_fresh_process_is_not_expected_to_end<C>(v: SlotView<C>, child: C)
    ensures
        !installed(stopping(v), child).expected_eof,
        !installed(reaped(v), child).expected_eof,
        installed(reaped(v), child).generation != v.generation,
{
}

/// A process that has come up is the one in its place, the next in number; that its end is
/// meant does not take it out, and taking it out leaves the place empty and the number as
/// it was.
pub proof fn law_place_holds_the_last_process<C>(v: SlotView<C>, child: C)
    ensures
        installed(v, child).child == Some(child),
        v.generation < u64::MAX ==> installed(v, child).generation == v.generation + 1,
        !installed(v, child).expected_eof,
        stopping(v).child == v.child && stopping(v).expected_eof,
        stopping(v).generation == v.generation,
        reaped(v).child is None && reaped(v).expected_eof,
        reaped(v).generation == v.generation,
        unused::<C>().child is None && unused::<C>().generation == 0
            && !unused::<C>().expected_eof,
{
}

} // verus!
