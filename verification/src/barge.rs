//! Pausing the voice while another program uses the microphone.
//!
//! One step is made at every tick of a watcher that sees whether the microphone is in
//! use.

use vstd::prelude::*;

verus! {

/// How many ticks a barge may last: a microphone that is reported in use for ever must
/// not silence the voice for ever.
pub const BARGE_MAX_TICKS: u32 = 40;

/// How many ticks the microphone may stay in use after a dictation of our own before it
/// counts as another program's: the recorder lets go of it late.
pub const TEARDOWN_GRACE_TICKS: u32 = 4;

/// What a tick calls for.
#[derive(Debug, Clone, Copy, PartialEq, Eq, Structural)]
pub enum BargeAction {
    /// Nothing.
    Nothing,
    /// Another program has begun to use the microphone: pause the voice.
    Pause,
    /// The pause that the watcher made is over: resume the voice.
    Resume,
}

/// What is carried from tick to tick.
#[derive(Debug, Clone, Copy, PartialEq, Eq, Structural)]
pub struct BargeState {
    /// The microphone was in use.
    pub prev: bool,
    /// The watcher has paused the voice.
    pub barged: bool,
    /// How many ticks the pause has lasted while the microphone stayed in use.
    pub ticks: u32,
    /// A dictation of our own was running.
    pub prev_ours: bool,
    /// How many ticks the microphone has stayed in use after a dictation of our own.
    pub teardown_grace: u32,
}

impl Default for BargeState {
    fn default() -> (r: Self)
        ensures
            r == (BargeState {
                prev: false,
                barged: false,
                ticks: 0,
                prev_ours: false,
                teardown_grace: 0,
            }),
    {
        BargeState { prev: false, barged: false, ticks: 0, prev_ours: false, teardown_grace: 0 }
    }
}

/// What a tick sees.
#[derive(Debug, Clone, Copy, PartialEq, Eq, Structural)]
pub struct BargeInput {
    /// The microphone is in use.
    pub active: bool,
    /// A dictation of our own is running.
    pub ours: bool,
    /// The engine itself holds the microphone all the time.
    pub full_duplex: bool,
}

/// Whether a dictation of our own has just ended, so that the recorder may still hold
/// the microphone.
pub open spec fn settling(i: BargeInput, st: BargeState) -> bool {
    (st.prev_ours || st.teardown_grace > 0) && !i.ours
}

/// Whether a microphone in use is put down to our own recorder for another tick.
pub open spec fn withheld(i: BargeInput, st: BargeState) -> bool {
    settling(i, st) && i.active && st.teardown_grace + 1 < TEARDOWN_GRACE_TICKS
}

/// What a tick calls for.
pub open spec fn barge_action(i: BargeInput, st: BargeState, max_ticks: u32) -> BargeAction {
    if i.full_duplex {
        if st.barged {
            BargeAction::Resume
        } else {
            BargeAction::Nothing
        }
    } else if settling(i, st) {
        if i.active && !withheld(i, st) {
            BargeAction::Pause
        } else {
            BargeAction::Nothing
        }
    } else if i.active && !st.prev && !i.ours {
        BargeAction::Pause
    } else if st.barged && (!i.active || (!i.ours && st.ticks + 1 >= max_ticks)) {
        BargeAction::Resume
    } else {
        BargeAction::Nothing
    }
}

/// What a tick leaves to the next.
pub open spec fn barge_next(i: BargeInput, st: BargeState, max_ticks: u32) -> BargeState {
    let action = barge_action(i, st, max_ticks);
    BargeState {
        prev: i.full_duplex || (i.active && !withheld(i, st)),
        barged: match action {
            BargeAction::Pause => true,
            BargeAction::Resume => false,
            BargeAction::Nothing => st.barged,
        },
        ticks: if i.full_duplex || action != BargeAction::Nothing {
            0
        } else if st.barged && i.active && !i.ours && !settling(i, st) {
            (st.ticks + 1) as u32
        } else {
            st.ticks
        },
        prev_ours: i.ours,
        teardown_grace: if !i.full_duplex && withheld(i, st) {
            (st.teardown_grace + 1) as u32
        } else {
            0
        },
    }
}

/// One tick. The voice is paused when another program begins to use the microphone, and
/// resumed only from a pause that the watcher itself made. A program that began during
/// a dictation of our own shows no beginning: it is found when the microphone stays in
/// use after the dictation.
pub fn barge_step(active: bool, ours: bool, full_duplex: bool, st: BargeState, max_ticks: u32)
    -> (r: (BargeAction, BargeState))
    ensures
        r.0 == barge_action((BargeInput { active, ours, full_duplex }), st, max_ticks),
        r.1 == barge_next((BargeInput { active, ours, full_duplex }), st, max_ticks),
{
    if full_duplex {
        return (
            if st.barged {
                BargeAction::Resume
            } else {
                BargeAction::Nothing
            },
            BargeState { prev: true, barged: false, ticks: 0, prev_ours: ours, teardown_grace: 0 },
        );
    }
    if (st.prev_ours || st.teardown_grace > 0) && !ours {
        if !active {
            return (
                BargeAction::Nothing,
                BargeState { prev: false, prev_ours: false, teardown_grace: 0, ..st },
            );
        }
        let grace: u32 = st.teardown_grace.saturating_add(1);
        if grace < TEARDOWN_GRACE_TICKS {
            return (
                BargeAction::Nothing,
                BargeState { prev: false, prev_ours: false, teardown_grace: grace, ..st },
            );
        }
        return (
            BargeAction::Pause,
            BargeState { prev: true, barged: true, ticks: 0, prev_ours: false, teardown_grace: 0 },
        );
    }
    let over = BargeState {
        prev: active,
        barged: false,
        ticks: 0,
        prev_ours: ours,
        teardown_grace: 0,
    };
    if active && !st.prev && !ours {
        (BargeAction::Pause, BargeState { barged: true, ..over })
    } else if st.barged && !active {
        (BargeAction::Resume, over)
    } else if st.barged && !ours {
        let ticks: u32 = st.ticks.saturating_add(1);
        if ticks >= max_ticks {
            (BargeAction::Resume, over)
        } else {
            (BargeAction::Nothing, BargeState { barged: true, ticks, ..over })
        }
    } else {
        (
            BargeAction::Nothing,
            BargeState { prev: active, prev_ours: ours, teardown_grace: 0, ..st },
        )
    }
}

// ── Laws ─────────────────────────────────────────────────────────────────────

/// The watcher stands down while the engine itself holds the microphone: it never
/// pauses, and keeps no pause.
pub proof fn law_full_duplex_stands_down(i: BargeInput, st: BargeState, max_ticks: u32)
    requires
        i.full_duplex,
    ensures
        barge_action(i, st, max_ticks) != BargeAction::Pause,
        !barge_next(i, st, max_ticks).barged,
{
}

/// Only a pause that the watcher made is resumed, and it is resumed once: a pause that
/// the user made is left alone.
pub proof fn law_only_own_pause_is_resumed(i: BargeInput, st: BargeState, max_ticks: u32)
    ensures
        barge_action(i, st, max_ticks) == BargeAction::Resume ==> st.barged && !barge_next(
            i,
            st,
            max_ticks,
        ).barged,
        barge_action(i, st, max_ticks) == BargeAction::Pause ==> barge_next(
            i,
            st,
            max_ticks,
        ).barged,
{
}

/// The voice is paused only while the microphone is in use and no dictation of our own
/// is running.
pub proof fn law_pause_only_for_another_program(i: BargeInput, st: BargeState, max_ticks: u32)
    ensures
        barge_action(i, st, max_ticks) == BargeAction::Pause ==> i.active && !i.ours
            && !i.full_duplex,
{
}

/// The state after `n` ticks that all see the same.
pub open spec fn after_ticks(i: BargeInput, st: BargeState, max_ticks: u32, n: nat) -> BargeState
    decreases n,
{
    if n == 0 {
        st
    } else {
        barge_next(i, after_ticks(i, st, max_ticks, (n - 1) as nat), max_ticks)
    }
}

/// A pause ends although the microphone stays in use: a watcher that has just paused
/// resumes at tick `max_ticks`, and not before.
pub proof fn law_sticky_pause_is_bounded(max_ticks: u32, n: nat)
    requires
        0 <= n < max_ticks,
    ensures
        ({
            let i = BargeInput { active: true, ours: false, full_duplex: false };
            let paused = BargeState {
                prev: true,
                barged: true,
                ticks: 0,
                prev_ours: false,
                teardown_grace: 0,
            };
            let st = after_ticks(i, paused, max_ticks, n);
            &&& st == (BargeState { ticks: n as u32, ..paused })
            &&& barge_action(i, st, max_ticks) == (if n + 1 == max_ticks {
                BargeAction::Resume
            } else {
                BargeAction::Nothing
            })
        }),
    decreases n,
{
    if n > 0 {
        law_sticky_pause_is_bounded(max_ticks, (n - 1) as nat);
    }
}

/// A program that took the microphone during a dictation of our own is found: when the
/// microphone stays in use after the dictation, the voice is paused at tick
/// [`TEARDOWN_GRACE_TICKS`], and not before.
pub proof fn law_masked_program_is_found(st: BargeState, max_ticks: u32, n: nat)
    requires
        st.prev_ours,
        st.teardown_grace == 0,
        n < TEARDOWN_GRACE_TICKS,
    ensures
        ({
            let i = BargeInput { active: true, ours: false, full_duplex: false };
            barge_action(i, after_ticks(i, st, max_ticks, n), max_ticks) == (if n + 1
                == TEARDOWN_GRACE_TICKS {
                BargeAction::Pause
            } else {
                BargeAction::Nothing
            })
        }),
{
    reveal_with_fuel(after_ticks, 5);
}

/// A recorder that lets go of the microphone within the grace pauses nothing.
pub proof fn law_own_teardown_is_no_barge(st: BargeState, max_ticks: u32, n: nat)
    requires
        st.prev_ours,
        st.teardown_grace == 0,
        n < TEARDOWN_GRACE_TICKS,
    ensures
        ({
            let held = BargeInput { active: true, ours: false, full_duplex: false };
            let idle = BargeInput { active: false, ours: false, full_duplex: false };
            let settled = after_ticks(held, st, max_ticks, n);
            &&& barge_action(idle, settled, max_ticks) == BargeAction::Nothing
            &&& barge_next(idle, settled, max_ticks) == (BargeState {
                prev: false,
                prev_ours: false,
                teardown_grace: 0,
                ..st
            })
        }),
{
    reveal_with_fuel(after_ticks, 5);
}

/// The voice is paused at once when another program begins to use the microphone, and
/// resumed at once when that program lets go of it; in between nothing happens until the
/// pause has lasted its time.
pub proof fn law_other_program_pauses_and_resumes(st: BargeState, max_ticks: u32)
    requires
        !st.prev_ours,
        st.teardown_grace == 0,
    ensures
        ({
            let used = BargeInput { active: true, ours: false, full_duplex: false };
            let free = BargeInput { active: false, ours: false, full_duplex: false };
            &&& !st.prev ==> barge_action(used, st, max_ticks) == BargeAction::Pause
            &&& !st.prev ==> barge_next(used, st, max_ticks) == (BargeState {
                prev: true,
                barged: true,
                ticks: 0,
                prev_ours: false,
                teardown_grace: 0,
            })
            &&& st.barged ==> barge_action(free, st, max_ticks) == BargeAction::Resume
            &&& !st.barged ==> barge_action(free, st, max_ticks) == BargeAction::Nothing
            &&& !barge_next(free, st, max_ticks).barged && !barge_next(free, st, max_ticks).prev
            &&& st.prev && !st.barged ==> barge_action(used, st, max_ticks)
                == BargeAction::Nothing
            &&& st.prev && st.barged && st.ticks + 1 < max_ticks ==> barge_action(
                used,
                st,
                max_ticks,
            ) == BargeAction::Nothing && barge_next(used, st, max_ticks) == (BargeState {
                ticks: (st.ticks + 1) as u32,
                ..st
            })
            &&& st.prev && st.barged && st.ticks + 1 >= max_ticks ==> barge_action(
                used,
                st,
                max_ticks,
            ) == BargeAction::Resume
        }),
{
}

/// A dictation of our own neither pauses nor resumes anything while it holds the
/// microphone, and is remembered for when it ends.
pub proof fn law_own_dictation_is_no_barge(st: BargeState, max_ticks: u32)
    ensures
        ({
            let ours = BargeInput { active: true, ours: true, full_duplex: false };
            &&& barge_action(ours, st, max_ticks) == BargeAction::Nothing
            &&& barge_next(ours, st, max_ticks) == (BargeState {
                prev: true,
                prev_ours: true,
                teardown_grace: 0,
                ..st
            })
        }),
{
}

/// After a dictation of our own the microphone may stay in use for three ticks; with the
/// fourth it counts as another program's.
pub proof fn law_recorder_lets_go_late(st: BargeState, max_ticks: u32)
    requires
        st.teardown_grace <= 3,
        st.prev_ours || st.teardown_grace > 0,
    ensures
        ({
            let used = BargeInput { active: true, ours: false, full_duplex: false };
            &&& st.teardown_grace < 3 ==> barge_action(used, st, max_ticks) == BargeAction::Nothing
                && barge_next(used, st, max_ticks).teardown_grace == st.teardown_grace + 1
                && barge_next(used, st, max_ticks).barged == st.barged && !barge_next(
                used,
                st,
                max_ticks,
            ).prev
            &&& st.teardown_grace == 3 ==> barge_action(used, st, max_ticks) == BargeAction::Pause
        }),
{
}

/// A pause that is under way when the engine itself takes the microphone is taken back,
/// once.
pub proof fn law_full_duplex_takes_the_pause_back(i: BargeInput, st: BargeState, max_ticks: u32)
    requires
        i.full_duplex,
    ensures
        barge_action(i, st, max_ticks) == (if st.barged {
            BargeAction::Resume
        } else {
            BargeAction::Nothing
        }),
        barge_next(i, st, max_ticks) == (BargeState {
            prev: true,
            barged: false,
            ticks: 0,
            prev_ours: i.ours,
            teardown_grace: 0,
        }),
{
}

} // verus!
