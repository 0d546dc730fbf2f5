//! What holds of the rollback scheduler as a whole, proved from the contracts
//! of its parts.

use crate::scheduler::{received_all, RemoteInput, RollbackScheduler};
use crate::simulation::{replay, Simulation};
use crate::timeline::SchedulerModel;
use vstd::prelude::*;

verus! {

/// Whether none of `arrived`, taken in one after the other, shows a
/// prediction to be wrong.
pub open spec fn all_as_predicted(model: SchedulerModel, arrived: Seq<RemoteInput>) -> bool {
    forall|i: int|
        0 <= i < arrived.len() ==> !received_all(model, arrived.take(i)).mispredicts(
            (#[trigger] arrived[i]).slot as int,
            arrived[i].frame_number,
            arrived[i].input.inp,
        )
}

/// Inputs that arrive leave the invariant in place, however many they are.
pub proof fn law_received_all_wf(model: SchedulerModel, arrived: Seq<RemoteInput>)
    requires
        model.wf(),
    ensures
        received_all(model, arrived).wf(),
        received_all(model, arrived).frame == model.frame,
    decreases arrived.len(),
{
    if arrived.len() > 0 {
        law_received_all_wf(model, arrived.drop_last());
        received_all(model, arrived.drop_last()).lemma_received_wf(
            arrived.last().slot as int,
            arrived.last().frame_number,
            arrived.last().input.inp,
        );
    }
}

/// While every input that arrives is what was predicted, no rollback is ever
/// due, and the inputs of the simulated frames stay what they were: nothing
/// is simulated twice.
pub proof fn law_no_misprediction_no_rollback(model: SchedulerModel, arrived: Seq<RemoteInput>)
    requires
        model.wf(),
        model.pending is None,
        all_as_predicted(model, arrived),
    ensures
        received_all(model, arrived).pending is None,
        received_all(model, arrived).timeline() == model.timeline(),
    decreases arrived.len(),
{
    if arrived.len() > 0 {
        let rest = arrived.drop_last();
        let input = arrived.last();
        assert forall|i: int| 0 <= i < rest.len() implies !received_all(
            model,
            rest.take(i),
        ).mispredicts((#[trigger] rest[i]).slot as int, rest[i].frame_number, rest[i].input.inp) by {
            assert(rest.take(i) =~= arrived.take(i));
        }
        law_no_misprediction_no_rollback(model, rest);
        law_received_all_wf(model, rest);
        let before = received_all(model, rest);
        let after = received_all(model, arrived);
        assert(after.timeline() =~= before.timeline()) by {
            assert forall|i: int| 0 <= i < before.frame implies #[trigger] after.timeline()[i]
                == before.timeline()[i] by {
                before.lemma_received_keeps(
                    input.slot as int,
                    input.frame_number,
                    input.input.inp,
                    i + 1,
                );
            }
        }
    }
}

/// With no misprediction the simulation is, after any number of ticks, where
/// a plain sequential run over the same inputs ends: the run that steps once
/// per frame, from the starting state, with the inputs of that frame.
pub proof fn law_sequential_run<S: Simulation>(scheduler: RollbackScheduler<S>)
    requires
        scheduler.wf(),
        scheduler@.pending is None,
    ensures
        scheduler.live() == replay::<S>(scheduler.origin(), scheduler@.timeline()),
        scheduler@.timeline().len() == scheduler@.frame,
        forall|i: int|
            0 <= i < scheduler@.frame ==> #[trigger] scheduler@.timeline()[i]
                == scheduler@.inputs_at(i + 1),
{
}

/// A correction takes effect from its frame on, and leaves the frames before
/// it alone: once the true input of a simulated frame has arrived and the
/// rollback is made, that frame is simulated with the true input, and every
/// frame before it with what it was simulated with before.
pub proof fn law_correction_takes_effect(model: SchedulerModel, slot: int, frame: u32, bits: u8)
    requires
        model.wf(),
        model.accepts(slot, frame),
        frame <= model.frame,
    ensures
        model.received(slot, frame, bits).reconciled().timeline()[frame - 1][slot] == bits,
        forall|i: int|
            0 <= i < frame - 1 ==> #[trigger] model.received(
                slot,
                frame,
                bits,
            ).reconciled().timeline()[i] == model.timeline()[i],
{
    let taken = model.received(slot, frame, bits);
    let after = taken.reconciled();
    taken.lemma_reconciled();
    assert forall|i: int| 0 <= i < frame - 1 implies #[trigger] after.timeline()[i]
        == model.timeline()[i] by {
        model.lemma_received_keeps(slot, frame, bits, i + 1);
    }
}

/// Replay equivalence: the state that a rollback leaves is the state that
/// would have been reached had every input been known from the start. Two
/// schedulers that started from the same state, have simulated as many
/// frames and know the same inputs are in the same state, whatever each of
/// them predicted and corrected on its way.
pub proof fn law_replay_equivalence<S: Simulation>(
    corrected: RollbackScheduler<S>,
    foreseen: RollbackScheduler<S>,
)
    requires
        corrected.wf(),
        foreseen.wf(),
        corrected@.pending is None,
        foreseen@.pending is None,
        corrected.origin() == foreseen.origin(),
        corrected@.frame == foreseen@.frame,
        corrected@.queues == foreseen@.queues,
    ensures
        corrected.live() == foreseen.live(),
{
    assert(corrected@.timeline() =~= foreseen@.timeline()) by {
        assert forall|i: int| 0 <= i < corrected@.frame implies #[trigger] corrected@.timeline()[i]
            == foreseen@.timeline()[i] by {}
    }
}

/// A rollback does not move the frame count, and it never asks for a
/// snapshot that is gone: the frame before the earliest misprediction is
/// always among those kept.
pub proof fn law_pending_rollback_is_served<S: Simulation>(scheduler: RollbackScheduler<S>)
    requires
        scheduler.wf(),
        scheduler@.pending is Some,
    ensures
        scheduler.retained().dom().contains((scheduler@.pending->0 - 1) as u32),
        scheduler@.reconciled().frame == scheduler@.frame,
{
}

/// What one tick is given: the remote inputs that have arrived, and the
/// local input sampled in it.
pub struct TickModel {
    pub arrived: Seq<RemoteInput>,
    pub bits: u8,
}

/// The model after one tick for each of `ticks`, in order.
pub open spec fn ran(model: SchedulerModel, ticks: Seq<TickModel>) -> SchedulerModel
    decreases ticks.len(),
{
    if ticks.len() == 0 {
        model
    } else {
        received_all(ran(model, ticks.drop_last()), ticks.last().arrived).ticked(
            ticks.last().bits,
        )
    }
}

/// Whether the ticks run smoothly: in none of them an input arrives that
/// shows a prediction to be wrong, and in none the simulation has to wait.
pub open spec fn smooth(model: SchedulerModel, ticks: Seq<TickModel>) -> bool {
    forall|i: int|
        0 <= i < ticks.len() ==> all_as_predicted(
            ran(model, ticks.take(i)),
            (#[trigger] ticks[i]).arrived,
        ) && !received_all(ran(model, ticks.take(i)), ticks[i].arrived).stalled()
}

/// While the ticks run smoothly, each of them simulates just one frame: after
/// `n` ticks the frame count is `n` more than it was, no rollback is due, and
/// every frame that was simulated before is simulated with what it was
/// simulated with.
pub proof fn law_one_frame_per_tick(model: SchedulerModel, ticks: Seq<TickModel>)
    requires
        model.wf(),
        model.pending is None,
        smooth(model, ticks),
    ensures
        ran(model, ticks).wf(),
        ran(model, ticks).pending is None,
        ran(model, ticks).frame == model.frame + ticks.len(),
        ran(model, ticks).timeline().take(model.frame as int) == model.timeline(),
    decreases ticks.len(),
{
    if ticks.len() == 0 {
        assert(model.timeline().take(model.frame as int) =~= model.timeline());
    } else {
        let rest = ticks.drop_last();
        let last = ticks.last();
        assert forall|i: int| 0 <= i < rest.len() implies all_as_predicted(
            ran(model, rest.take(i)),
            (#[trigger] rest[i]).arrived,
        ) && !received_all(ran(model, rest.take(i)), rest[i].arrived).stalled() by {
            assert(rest.take(i) =~= ticks.take(i));
            assert(rest[i] == ticks[i]);
        }
        law_one_frame_per_tick(model, rest);
        let before = ran(model, rest);
        assert(ticks.take(ticks.len() - 1) =~= rest);
        assert(ticks[ticks.len() - 1] == last);
        law_received_all_wf(before, last.arrived);
        law_no_misprediction_no_rollback(before, last.arrived);
        let taken = received_all(before, last.arrived);
        taken.lemma_reconciled();
        taken.reconciled().lemma_advanced(last.bits);
        let after = ran(model, ticks);
        assert(after.timeline().take(model.frame as int) =~= model.timeline()) by {
            assert forall|i: int| 0 <= i < model.frame implies #[trigger] after.timeline()[i]
                == model.timeline()[i] by {
                assert(before.timeline().take(model.frame as int)[i] == before.timeline()[i]);
                assert(taken.reconciled().timeline().push(
                    after.inputs_at(taken.frame as int + 1),
                )[i] == taken.timeline()[i]);
            }
        }
    }
}

} // verus!
