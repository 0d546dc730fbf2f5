//! What the rollback core asks of the game it drives: a deterministic step,
//! and a way to copy its state out and back in.

use crate::input::{bitmasks, InputFrame};
use vstd::prelude::*;

verus! {

/// A deterministic simulation that the rollback core can step, save and
/// restore.
///
/// The view is the part of the state that takes part in rollback. A step may
/// look at the confirmation of an input, to show it, but the view that results
/// depends on the bitmasks alone: a prediction that turns out right needs no
/// correction.
pub trait Simulation: View + Sized {
    /// The state that one step leads to, given one bitmask per player slot.
    spec fn step_spec(state: Self::V, inputs: Seq<u8>) -> Self::V;

    /// Advances the simulation by one frame.
    fn step(&mut self, inputs: &Vec<InputFrame>)
        ensures
            final(self)@ == Self::step_spec(old(self)@, bitmasks(inputs@)),
    ;

    /// A copy of the state as it is now.
    fn snapshot(&self) -> (copy: Self)
        ensures
            copy@ == self@,
    ;

    /// Overwrites the state with a saved one.
    fn restore(&mut self, saved: &Self)
        ensures
            final(self)@ == saved@,
    ;
}

/// The state reached from `origin` by stepping once for each entry of
/// `timeline`, in order. Entry `i` holds the bitmasks of frame `i + 1`.
pub open spec fn replay<S: Simulation>(origin: S::V, timeline: Seq<Seq<u8>>) -> S::V
    decreases timeline.len(),
{
    if timeline.len() == 0 {
        origin
    } else {
        S::step_spec(replay::<S>(origin, timeline.drop_last()), timeline.last())
    }
}

/// Replaying one frame more is one step from where the shorter replay ends.
pub proof fn lemma_replay_push<S: Simulation>(origin: S::V, timeline: Seq<Seq<u8>>, inputs: Seq<u8>)
    ensures
        replay::<S>(origin, timeline.push(inputs)) == S::step_spec(
            replay::<S>(origin, timeline),
            inputs,
        ),
{
    assert(timeline.push(inputs).drop_last() =~= timeline);
}

} // verus!
