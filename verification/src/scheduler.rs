//! The rollback scheduler: it runs the simulation ahead on predicted input,
//! and when a prediction turns out wrong it goes back to the last good
//! snapshot and simulates the frames since then again.

use crate::config::SessionConfig;
use crate::error::SessionError;
use crate::frame::{increase_frame_system, FrameCount};
use crate::input::{bitmasks, BoxInput, InputFrame, InputStatus};
use crate::simulation::{lemma_replay_push, replay, Simulation};
use crate::snapshot::SnapshotStore;
use crate::timeline::{QueueModel, SchedulerModel};
use vstd::prelude::*;

verus! {

/// The inputs of one player slot, as far as they are known. The whole history
/// is kept: what a frame was simulated with can be asked of any frame.
struct InputQueue {
    /// Entry `i` holds the true input of frame `i + 1`, once it has arrived.
    known: Vec<Option<u8>>,
    /// The last frame up to which every input has arrived.
    run: usize,
    gone_after: Option<u32>,
}

impl View for InputQueue {
    type V = QueueModel;

    closed spec fn view(&self) -> QueueModel {
        QueueModel { known: self.known@, gone_after: self.gone_after }
    }
}

impl InputQueue {
    /// The run that is kept is the run that the inputs show.
    spec fn sound(&self) -> bool {
        self.run == self@.run()
    }

    /// A queue whose first `delay` frames are confirmed as empty.
    fn new(delay: u32) -> (queue: InputQueue)
        ensures
            queue.sound(),
            queue@ == (QueueModel {
                known: Seq::new(delay as nat, |i: int| Some(0u8)),
                gone_after: None,
            }),
            queue@.run() == delay,
    {
        let mut known: Vec<Option<u8>> = Vec::new();
        let mut filled: u32 = 0;
        while filled < delay
            invariant
                filled <= delay,
                known@.len() == filled,
                forall|i: int| 0 <= i < filled ==> known@[i] == Some(0u8),
            decreases delay - filled,
        {
            known.push(Some(0));
            filled += 1;
        }
        let queue = InputQueue { known, run: delay as usize, gone_after: None };
        proof {
            assert(queue@.known =~= Seq::new(delay as nat, |i: int| Some(0u8)));
            queue@.lemma_run_reaches(0, delay as int);
            queue@.lemma_run_from(delay as int);
        }
        queue
    }

    fn confirmed(&self, frame_number: u32) -> (confirmed: bool)
        ensures
            confirmed == self@.confirmed(frame_number as int),
    {
        frame_number >= 1 && frame_number as usize <= self.known.len()
            && self.known[frame_number as usize - 1].is_some()
    }

    /// The prediction for a frame: the last input that has arrived for a
    /// frame before it.
    fn held(&self, frame_number: u32) -> (bits: u8)
        ensures
            bits == self@.held(frame_number as int),
    {
        let mut frame: usize = frame_number as usize;
        if frame >= 1 && frame - 1 > self.known.len() {
            proof {
                self@.lemma_held_beyond(frame_number as int);
            }
            frame = self.known.len() + 1;
        }
        while frame > 1
            invariant
                frame <= self.known@.len() + 1,
                self@.held(frame as int) == self@.held(frame_number as int),
            decreases frame,
        {
            if let Some(bits) = self.known[frame - 2] {
                return bits;
            }
            frame -= 1;
        }
        0
    }

    fn input_at(&self, frame_number: u32) -> (input: InputFrame)
        ensures
            input == self@.input_at(frame_number as int),
    {
        if let Some(last) = self.gone_after {
            if frame_number > last {
                return InputFrame {
                    frame_number,
                    bitmask: 0,
                    confirmation: InputStatus::Disconnected,
                };
            }
        }
        if frame_number >= 1 && frame_number as usize <= self.known.len() {
            if let Some(bits) = self.known[frame_number as usize - 1] {
                return InputFrame {
                    frame_number,
                    bitmask: bits,
                    confirmation: InputStatus::Confirmed,
                };
            }
        }
        InputFrame {
            frame_number,
            bitmask: self.held(frame_number),
            confirmation: InputStatus::Predicted,
        }
    }

    /// Takes in the true input of a frame that has none yet.
    fn fill(&mut self, frame_number: u32, bits: u8)
        requires
            old(self).sound(),
            frame_number >= 1,
            !old(self)@.confirmed(frame_number as int),
        ensures
            final(self).sound(),
            final(self)@ == old(self)@.filled(frame_number as int, bits),
    {
        let ghost before = self@;
        let ghost after = before.filled(frame_number as int, bits);
        while self.known.len() < frame_number as usize
            invariant
                self.known@.len() <= frame_number || self.known@.len() == before.known.len(),
                before.known.len() <= self.known@.len(),
                forall|i: int| 0 <= i < before.known.len() ==> self.known@[i] == before.known[i],
                forall|i: int|
                    before.known.len() <= i < self.known@.len() ==> self.known@[i] == None::<u8>,
                self.run == before.run(),
                self.gone_after == before.gone_after,
            decreases frame_number - self.known@.len(),
        {
            self.known.push(None);
        }
        self.known.set(frame_number as usize - 1, Some(bits));
        proof {
            assert(self.known@ =~= after.known);
            before.lemma_filled_run(frame_number as int, bits);
            before.lemma_run_from(0);
            assert forall|g: int| 0 < g <= before.run() implies after.confirmed(g) by {
                assert(before.confirmed(g));
            }
            after.lemma_run_reaches(0, before.run());
        }
        while self.run < self.known.len() && self.known[self.run].is_some()
            invariant
                self@ == after,
                self.run <= self.known@.len(),
                after.run_from(self.run as int) == after.run(),
            decreases self.known@.len() - self.run,
        {
            self.run += 1;
        }
    }

    /// Confirms the next input of a queue that has no gap.
    fn extend(&mut self, bits: u8)
        requires
            old(self).sound(),
            old(self)@.run() == old(self)@.known.len(),
            old(self)@.known.len() < usize::MAX,
        ensures
            final(self).sound(),
            final(self)@ == (QueueModel {
                known: old(self)@.known.push(Some(bits)),
                gone_after: old(self)@.gone_after,
            }),
            final(self)@.run() == final(self)@.known.len(),
    {
        let ghost before = self@;
        self.known.push(Some(bits));
        self.run += 1;
        proof {
            let after = self@;
            before.lemma_run_from(0);
            assert forall|g: int| 0 < g <= before.known.len() + 1 implies after.confirmed(g) by {
                if g <= before.known.len() {
                    assert(before.confirmed(g));
                }
            }
            after.lemma_run_reaches(0, before.known.len() as int + 1);
            after.lemma_run_from(before.known.len() as int + 1);
        }
    }
}

/// The models of a row of queues, in the same order.
spec fn models(queues: Seq<InputQueue>) -> Seq<QueueModel> {
    Seq::new(queues.len(), |slot: int| queues[slot]@)
}

/// The best-known input of every slot for one frame.
fn gather(queues: &Vec<InputQueue>, frame_number: u32) -> (inputs: Vec<InputFrame>)
    ensures
        inputs@ == Seq::new(
            queues@.len(),
            |slot: int| models(queues@)[slot].input_at(frame_number as int),
        ),
{
    let mut inputs: Vec<InputFrame> = Vec::new();
    let mut slot: usize = 0;
    while slot < queues.len()
        invariant
            slot <= queues@.len(),
            inputs@.len() == slot,
            forall|s: int|
                0 <= s < slot ==> inputs@[s] == models(queues@)[s].input_at(frame_number as int),
        decreases queues@.len() - slot,
    {
        inputs.push(queues[slot].input_at(frame_number));
        slot += 1;
    }
    assert(inputs@ =~= Seq::new(
        queues@.len(),
        |slot: int| models(queues@)[slot].input_at(frame_number as int),
    ));
    inputs
}

/// What became of an input that arrived from a remote peer.
#[derive(Clone, Copy, Debug, PartialEq, Eq, Structural)]
pub enum Receipt {
    /// The input was taken in. It is for a frame not simulated yet, or it is
    /// what the frame was simulated with.
    Confirmed,
    /// The input was taken in, and the frame was simulated with another: the
    /// frame is due for a rollback.
    Mispredicted,
    /// The input was not taken in: the slot is not that of a remote player
    /// who is still there, the frame is out of reach, or an input for it has
    /// arrived before.
    Ignored,
}

/// What one tick did.
#[derive(Clone, Copy, Debug, PartialEq, Eq, Structural)]
pub enum TickOutcome {
    /// One frame was simulated. `sent` is the local input sampled in this
    /// tick, tagged with the frame it will be used for: it goes out to every
    /// peer.
    Advanced { frame: u32, sent: InputFrame },
    /// The simulation waited: no frame was simulated, and the local input of
    /// this tick was dropped.
    Stalled,
}

/// An input of a remote player, as the transport hands it over.
#[derive(Clone, Copy, Debug, PartialEq, Eq, Structural)]
pub struct RemoteInput {
    pub slot: usize,
    pub frame_number: u32,
    pub input: BoxInput,
}

/// The model after each of `arrived` was received, in order.
pub open spec fn received_all(model: SchedulerModel, arrived: Seq<RemoteInput>) -> SchedulerModel
    decreases arrived.len(),
{
    if arrived.len() == 0 {
        model
    } else {
        let input = arrived.last();
        received_all(model, arrived.drop_last()).received(
            input.slot as int,
            input.frame_number,
            input.input.inp,
        )
    }
}

/// The scheduler of one session. It owns the simulation and its snapshots.
pub struct RollbackScheduler<S: Simulation> {
    prediction_window: u32,
    input_delay: u32,
    local: usize,
    queues: Vec<InputQueue>,
    frame_count: FrameCount,
    rollback_target: Option<u32>,
    oldest: u32,
    simulation: S,
    store: SnapshotStore<S>,
    origin: Ghost<S::V>,
}

impl<S: Simulation> View for RollbackScheduler<S> {
    type V = SchedulerModel;

    closed spec fn view(&self) -> SchedulerModel {
        SchedulerModel {
            frame: self.frame_count.frame as nat,
            window: self.prediction_window as nat,
            delay: self.input_delay as nat,
            local: self.local as int,
            queues: models(self.queues@),
            pending: self.rollback_target,
            oldest: self.oldest as nat,
        }
    }
}

/// The model of a scheduler that has simulated nothing yet. Every player has
/// `delay` frames of empty input confirmed: no input sampled before the first
/// tick can be meant for an earlier frame.
pub open spec fn initial_model(players: nat, local: int, window: nat, delay: nat) -> SchedulerModel {
    SchedulerModel {
        frame: 0,
        window,
        delay,
        local,
        queues: Seq::new(
            players,
            |slot: int|
                QueueModel { known: Seq::new(delay, |i: int| Some(0u8)), gone_after: None },
        ),
        pending: None,
        oldest: 0,
    }
}

impl<S: Simulation> RollbackScheduler<S> {
    /// The state that the simulation started from.
    pub closed spec fn origin(&self) -> S::V {
        self.origin@
    }

    /// The state of the simulation as it is now.
    pub closed spec fn live(&self) -> S::V {
        self.simulation@
    }

    /// The snapshots that are kept, by frame.
    pub closed spec fn retained(&self) -> Map<u32, S::V> {
        self.store@
    }

    /// What the fields must hold beyond what the model says.
    pub closed spec fn sound(&self) -> bool {
        &&& self.store.wf()
        &&& forall|slot: int|
            0 <= slot < self.queues@.len() ==> (#[trigger] self.queues@[slot]).sound()
    }

    /// The invariant of the scheduler. The snapshots kept are those of the
    /// frames from the oldest retained to the last simulated. Each one that
    /// no pending correction puts in doubt holds the state that a plain
    /// replay of the best-known inputs reaches at its frame. And unless a
    /// correction is pending, the simulation is where a plain replay of the
    /// best-known inputs of every simulated frame ends.
    pub open spec fn wf(&self) -> bool {
        &&& self@.wf()
        &&& self.sound()
        &&& forall|frame: u32|
            self.retained().dom().contains(frame) <==> self@.oldest <= frame <= self@.frame
        &&& forall|frame: u32|
            self@.oldest <= frame <= self@.frame && frame < self@.trusted_below()
                ==> #[trigger] self.retained()[frame] == replay::<S>(
                self.origin(),
                self@.timeline().take(frame as int),
            )
        &&& self@.pending is None ==> self.live() == replay::<S>(self.origin(), self@.timeline())
    }

    /// A scheduler for a session of `config.num_players` players, of whom the
    /// one in slot `local` is the local one, around a simulation in its
    /// starting state.
    pub fn new(config: &SessionConfig, local: usize, simulation: S) -> (made: Result<
        Self,
        SessionError,
    >)
        ensures
            made is Ok <==> config.valid() && local < config.num_players,
            made is Err ==> made->Err_0 == SessionError::InvalidConfiguration,
            made is Ok ==> {
                let scheduler = made->Ok_0;
                &&& scheduler.wf()
                &&& scheduler@ == initial_model(
                    config.num_players as nat,
                    local as int,
                    config.prediction_window as nat,
                    config.input_delay as nat,
                )
                &&& scheduler.origin() == simulation@
                &&& scheduler.live() == simulation@
            },
    {
        if !config.is_valid() || local >= config.num_players {
            return Err(SessionError::InvalidConfiguration);
        }
        let ghost target = initial_model(
            config.num_players as nat,
            local as int,
            config.prediction_window as nat,
            config.input_delay as nat,
        );
        let mut queues: Vec<InputQueue> = Vec::new();
        let mut slot: usize = 0;
        while slot < config.num_players
            invariant
                slot <= config.num_players,
                queues@.len() == slot,
                target == initial_model(
                    config.num_players as nat,
                    local as int,
                    config.prediction_window as nat,
                    config.input_delay as nat,
                ),
                forall|s: int|
                    0 <= s < slot ==> (#[trigger] queues@[s])@ == target.queues[s]
                        && queues@[s].sound() && queues@[s]@.run() == config.input_delay,
            decreases config.num_players - slot,
        {
            let queue = InputQueue::new(config.input_delay);
            queues.push(queue);
            slot += 1;
        }
        let mut store: SnapshotStore<S> = SnapshotStore::new();
        store.capture(0, &simulation);
        let scheduler = RollbackScheduler {
            prediction_window: config.prediction_window,
            input_delay: config.input_delay,
            local,
            queues,
            frame_count: FrameCount { frame: 0 },
            rollback_target: None,
            oldest: 0,
            origin: Ghost(simulation@),
            simulation,
            store,
        };
        proof {
            assert(scheduler@.queues =~= target.queues);
            assert forall|slot: int| 0 <= slot < target.queues.len() implies (
            #[trigger] target.queues[slot]).run() == config.input_delay by {}
            assert forall|slot: int| #[trigger] target.live_remote(slot) implies target.frame
                <= target.queues[slot].run() + target.window && target.oldest
                <= target.queues[slot].run() by {}
            assert forall|frame: u32|
                scheduler.retained().dom().contains(frame) <==> scheduler@.oldest <= frame
                    <= scheduler@.frame by {}
        }
        Ok(scheduler)
    }

    /// The number of frames simulated so far.
    pub fn frame_count(&self) -> (count: FrameCount)
        ensures
            count.frame == self@.frame,
    {
        self.frame_count
    }

    /// The number of player slots.
    pub fn num_players(&self) -> (players: usize)
        ensures
            players == self@.players(),
    {
        self.queues.len()
    }

    /// The slot of the local player.
    pub fn local_slot(&self) -> (slot: usize)
        ensures
            slot == self@.local,
    {
        self.local
    }

    /// How many frames the simulation may run ahead of confirmed input.
    pub fn prediction_window(&self) -> (window: u32)
        ensures
            window == self@.window,
    {
        self.prediction_window
    }

    /// By how many frames a local input is deferred.
    pub fn input_delay(&self) -> (delay: u32)
        ensures
            delay == self@.delay,
    {
        self.input_delay
    }

    /// The earliest frame that is due for a rollback, if there is one.
    pub fn rollback_target(&self) -> (target: Option<u32>)
        ensures
            target == self@.pending,
    {
        self.rollback_target
    }

    /// The oldest frame whose snapshot is kept.
    pub fn oldest_retained(&self) -> (frame: u32)
        ensures
            frame == self@.oldest,
    {
        self.oldest
    }

    /// The number of snapshots kept: one for each frame from the oldest
    /// retained to the last simulated, which is never more than two more than
    /// the prediction window.
    pub fn snapshots_kept(&self) -> (count: usize)
        requires
            self.wf(),
        ensures
            count == self@.frame - self@.oldest + 1,
            count <= self@.window + 2,
    {
        proof {
            self.lemma_retention();
        }
        self.store.len()
    }

    /// The snapshots kept are as many as the frames from the oldest retained
    /// to the last simulated, and at most two more than the prediction
    /// window.
    pub proof fn lemma_retention(&self)
        requires
            self.wf(),
        ensures
            self.retained().dom().finite(),
            self.retained().dom().len() == self@.frame - self@.oldest + 1,
            self.retained().dom().len() <= self@.window + 2,
    {
        Self::lemma_range_len(self.retained().dom(), self@.oldest as int, self@.frame as int + 1);
    }

    /// A set of frame numbers that holds just those of a range is as large as
    /// the range.
    proof fn lemma_range_len(frames: Set<u32>, low: int, high: int)
        requires
            0 <= low <= high <= u32::MAX + 1,
            forall|frame: u32| frames.contains(frame) <==> low <= frame < high,
        ensures
            frames.finite(),
            frames.len() == high - low,
        decreases high - low,
    {
        if low == high {
            assert(frames =~= Set::<u32>::empty());
        } else {
            let top = (high - 1) as u32;
            let rest = frames.remove(top);
            Self::lemma_range_len(rest, low, high - 1);
        }
    }

    /// The simulation, to read its state.
    pub fn simulation(&self) -> (simulation: &S)
        ensures
            simulation@ == self.live(),
    {
        &self.simulation
    }

    /// The best that is known of the input of `slot` for `frame_number`, or
    /// nothing where there is no such slot.
    pub fn input_at(&self, slot: usize, frame_number: u32) -> (input: Option<InputFrame>)
        ensures
            input == if slot < self@.players() {
                Some(self@.input_at(slot as int, frame_number as int))
            } else {
                None
            },
    {
        if slot < self.queues.len() {
            Some(self.queues[slot].input_at(frame_number))
        } else {
            None
        }
    }

    /// The best that is known of the inputs for `frame_number`, one per slot:
    /// what the simulation is stepped with for that frame.
    pub fn inputs_for(&self, frame_number: u32) -> (inputs: Vec<InputFrame>)
        ensures
            inputs@ == self@.frames_at(frame_number as int),
    {
        let inputs = gather(&self.queues, frame_number);
        inputs
    }

    /// The confirmed horizon: the last simulated frame for which the input of
    /// every player is known for certain.
    pub fn confirmed_horizon(&self) -> (horizon: u32)
        requires
            self.wf(),
        ensures
            horizon == self@.horizon(),
    {
        Self::horizon_of(&self.queues, self.local, self.frame_count.frame, Ghost(self@))
    }

    fn horizon_of(
        queues: &Vec<InputQueue>,
        local: usize,
        frame: u32,
        Ghost(model): Ghost<SchedulerModel>,
    ) -> (horizon: u32)
        requires
            model.queues == models(queues@),
            model.local == local,
            model.frame == frame,
            forall|slot: int| 0 <= slot < queues@.len() ==> (#[trigger] queues@[slot]).sound(),
        ensures
            horizon == model.horizon(),
    {
        let mut horizon: u32 = frame;
        let mut slot: usize = 0;
        while slot < queues.len()
            invariant
                slot <= queues@.len(),
                model.queues == models(queues@),
                model.local == local,
                model.frame == frame,
                forall|slot: int| 0 <= slot < queues@.len() ==> (#[trigger] queues@[slot]).sound(),
                horizon == model.horizon_among(slot as int),
            decreases queues@.len() - slot,
        {
            let queue = &queues[slot];
            if slot != local && queue.gone_after.is_none() && queue.run < horizon as usize {
                horizon = queue.run as u32;
            }
            slot += 1;
        }
        horizon
    }

    /// Whether the simulation has to wait.
    pub fn is_stalled(&self) -> (stalled: bool)
        requires
            self.wf(),
        ensures
            stalled == self@.stalled(),
    {
        if self.frame_count.frame as u64 + self.input_delay as u64 >= u32::MAX as u64 {
            return true;
        }
        let mut slot: usize = 0;
        while slot < self.queues.len()
            invariant
                slot <= self.queues@.len(),
                self.wf(),
                self@.frame + self@.delay < u32::MAX,
                forall|s: int|
                    0 <= s < slot && #[trigger] self@.live_remote(s) ==> self@.frame
                        < self@.queues[s].run() + self@.window,
            decreases self.queues@.len() - slot,
        {
            let queue = &self.queues[slot];
            if slot != self.local && queue.gone_after.is_none() {
                assert(self@.live_remote(slot as int));
                proof {
                    queue@.lemma_run_from(0);
                }
                if self.frame_count.frame as u64 >= queue.run as u64
                    + self.prediction_window as u64 {
                    return true;
                }
            }
            slot += 1;
        }
        false
    }

    /// Takes in an input of a remote player, in whatever order the inputs of
    /// that player arrive. The input is taken in where the slot is that of a
    /// remote player who is still there, the frame is within reach, and no
    /// input has arrived for it before. Where the frame has been simulated
    /// with another bitmask, the frame is noted as due for a rollback, unless
    /// an earlier one is. The simulation itself is not touched.
    pub fn receive(&mut self, slot: usize, frame_number: u32, input: BoxInput) -> (receipt: Receipt)
        requires
            old(self).wf(),
        ensures
            final(self).wf(),
            final(self)@ == old(self)@.received(slot as int, frame_number, input.inp),
            final(self).origin() == old(self).origin(),
            final(self).live() == old(self).live(),
            final(self).retained() == old(self).retained(),
            receipt == if !old(self)@.accepts(slot as int, frame_number) {
                Receipt::Ignored
            } else if old(self)@.mispredicts(slot as int, frame_number, input.inp) {
                Receipt::Mispredicted
            } else {
                Receipt::Confirmed
            },
    {
        let ghost before = self@;
        if slot >= self.queues.len() || slot == self.local {
            return Receipt::Ignored;
        }
        if self.queues[slot].gone_after.is_some() {
            return Receipt::Ignored;
        }
        let reach: u64 = self.frame_count.frame as u64 + self.prediction_window as u64 + 2
            * (self.input_delay as u64);
        if frame_number == 0 || frame_number as u64 > reach {
            return Receipt::Ignored;
        }
        if self.queues[slot].confirmed(frame_number) {
            return Receipt::Ignored;
        }
        let mispredicted = frame_number <= self.frame_count.frame && input.inp
            != self.queues[slot].input_at(frame_number).bitmask;
        self.queues[slot].fill(frame_number, input.inp);
        if mispredicted {
            self.rollback_target = Some(
                match self.rollback_target {
                    Some(target) => if target <= frame_number {
                        target
                    } else {
                        frame_number
                    },
                    None => frame_number,
                },
            );
        }
        proof {
            let after = before.received(slot as int, frame_number, input.inp);
            assert(self@.queues =~= after.queues);
            assert(self.retained() == old(self).retained());
            before.lemma_received_wf(slot as int, frame_number, input.inp);
            let bound = after.trusted_below();
            assert forall|at: int| 1 <= at <= bound - 1 implies after.inputs_at(at)
                == before.inputs_at(at) by {
                before.lemma_received_keeps(slot as int, frame_number, input.inp, at);
            }
            Self::lemma_timeline_kept(before, after, bound - 1);
            assert forall|frame: u32|
                self@.oldest <= frame <= self@.frame && frame < self@.trusted_below()
                    implies #[trigger] self.retained()[frame] == replay::<S>(
                self.origin(),
                self@.timeline().take(frame as int),
            ) by {
                assert(old(self).retained()[frame] == replay::<S>(
                    old(self).origin(),
                    before.timeline().take(frame as int),
                ));
                assert(after.timeline().take(frame as int) =~= before.timeline().take(
                    frame as int,
                ));
            }
            if after.pending is None {
                assert(after.timeline() =~= before.timeline());
            }
        }
        if mispredicted {
            Receipt::Mispredicted
        } else {
            Receipt::Confirmed
        }
    }

    /// Two models of the same session that agree on the inputs of the first
    /// `upto` frames have timelines that agree there.
    proof fn lemma_timeline_kept(before: SchedulerModel, after: SchedulerModel, upto: int)
        requires
            before.frame == after.frame,
            upto <= before.frame,
            forall|at: int| 1 <= at <= upto ==> after.inputs_at(at) == before.inputs_at(at),
        ensures
            forall|i: int| 0 <= i < upto ==> #[trigger] after.timeline()[i] == before.timeline()[i],
    {
        assert forall|i: int| 0 <= i < upto implies #[trigger] after.timeline()[i]
            == before.timeline()[i] by {}
    }

    /// Notes that the player of `slot` has left. From the next frame on the
    /// slot carries empty input, marked as disconnected, and the simulation
    /// no longer waits for it. Frames already simulated stay as they are, so
    /// no rollback comes of it. Says whether the slot was that of a remote
    /// player who was still there.
    pub fn disconnect(&mut self, slot: usize) -> (was_there: bool)
        requires
            old(self).wf(),
        ensures
            final(self).wf(),
            final(self)@ == old(self)@.disconnected(slot as int),
            was_there == old(self)@.live_remote(slot as int),
            final(self).origin() == old(self).origin(),
            final(self).live() == old(self).live(),
            final(self).retained() == old(self).retained(),
            was_there ==> forall|frame: u32|
                frame > old(self)@.frame ==> #[trigger] final(self)@.input_at(
                    slot as int,
                    frame as int,
                ) == (InputFrame {
                    frame_number: frame,
                    bitmask: 0,
                    confirmation: InputStatus::Disconnected,
                }),
    {
        let ghost before = self@;
        if slot >= self.queues.len() || slot == self.local {
            return false;
        }
        if self.queues[slot].gone_after.is_some() {
            return false;
        }
        self.queues[slot].gone_after = Some(self.frame_count.frame);
        proof {
            let after = before.disconnected(slot as int);
            assert(self@.queues =~= after.queues);
            QueueModel::lemma_same_run(
                self.queues@[slot as int]@,
                old(self).queues@[slot as int]@,
                0,
            );
            before.lemma_disconnected(slot as int);
            assert(self.retained() == old(self).retained());
            assert forall|frame: u32|
                self@.oldest <= frame <= self@.frame && frame < self@.trusted_below()
                    implies #[trigger] self.retained()[frame] == replay::<S>(
                self.origin(),
                self@.timeline().take(frame as int),
            ) by {
                assert(old(self).retained()[frame] == replay::<S>(
                    old(self).origin(),
                    before.timeline().take(frame as int),
                ));
            }
        }
        true
    }

    /// Goes back to the snapshot of `frame_number` and simulates the frames
    /// after it again, up to the last simulated frame, each with the best
    /// that is known of its inputs now. Where a correction is pending for an
    /// earlier frame, the rollback starts from the snapshot before that one.
    /// The frame count is the same afterwards.
    ///
    /// Where the snapshot of `frame_number` is not kept, nothing changes and
    /// the error is `SnapshotNotFound`.
    pub fn rollback_to(&mut self, frame_number: u32) -> (outcome: Result<(), SessionError>)
        requires
            old(self).wf(),
        ensures
            final(self).wf(),
            final(self).origin() == old(self).origin(),
            outcome is Ok <==> old(self).retained().dom().contains(frame_number),
            outcome is Err ==> {
                &&& outcome->Err_0 == SessionError::SnapshotNotFound
                &&& final(self)@ == old(self)@
                &&& final(self).live() == old(self).live()
                &&& final(self).retained() == old(self).retained()
            },
            outcome is Ok ==> {
                &&& final(self)@ == old(self)@.reconciled()
                &&& final(self).live() == replay::<S>(final(self).origin(), final(self)@.timeline())
            },
    {
        let current: u32 = self.frame_count.frame;
        if frame_number < self.oldest || frame_number > current {
            return Err(SessionError::SnapshotNotFound);
        }
        let ghost before = self@;
        let ghost timeline = before.timeline();
        let ghost origin = self.origin();
        let mut start: u32 = frame_number;
        if let Some(target) = self.rollback_target {
            if target - 1 < start {
                start = target - 1;
            }
        }
        assert(self.retained().dom().contains(start));
        let restored = self.store.restore(start, &mut self.simulation);
        assert(restored is Ok);
        self.frame_count.frame = start;
        while self.frame_count.frame < current
            invariant
                before.oldest <= start <= self.frame_count.frame <= current,
                before.wf(),
                before.frame == current,
                timeline == before.timeline(),
                models(self.queues@) == before.queues,
                self.queues@ == old(self).queues@,
                self.prediction_window == before.window,
                self.input_delay == before.delay,
                self.local == before.local,
                self.oldest == before.oldest,
                self.rollback_target == before.pending,
                self.origin@ == origin,
                self.store.wf(),
                forall|frame: u32|
                    self.store@.dom().contains(frame) <==> before.oldest <= frame <= before.frame,
                forall|frame: u32|
                    before.oldest <= frame <= self.frame_count.frame
                        ==> #[trigger] self.store@[frame] == replay::<S>(
                        origin,
                        timeline.take(frame as int),
                    ),
                self.simulation@ == replay::<S>(origin, timeline.take(self.frame_count.frame as int)),
            decreases current - self.frame_count.frame,
        {
            let ghost done = self.frame_count.frame as int;
            let next: u32 = self.frame_count.frame + 1;
            let inputs = gather(&self.queues, next);
            proof {
                assert(timeline.take(done + 1).drop_last() =~= timeline.take(done));
            }
            self.simulation.step(&inputs);
            increase_frame_system(&mut self.frame_count);
            self.store.capture(next, &self.simulation);
        }
        self.rollback_target = None;
        proof {
            assert(timeline.take(current as int) =~= timeline);
            before.lemma_reconciled();
            assert forall|frame: u32|
                self@.oldest <= frame <= self@.frame && frame < self@.trusted_below()
                    implies #[trigger] self.retained()[frame] == replay::<S>(
                self.origin(),
                self@.timeline().take(frame as int),
            ) by {}
        }
        Ok(())
    }

    /// Makes the correction that is pending, if there is one: goes back to
    /// the snapshot before the earliest frame found wrong and simulates again
    /// from there. The snapshot is always there to go back to. Afterwards the
    /// simulation is where a plain replay of the best-known inputs ends, and
    /// the frame count is what it was.
    pub fn reconcile(&mut self)
        requires
            old(self).wf(),
        ensures
            final(self).wf(),
            final(self)@ == old(self)@.reconciled(),
            final(self).origin() == old(self).origin(),
            final(self).live() == replay::<S>(final(self).origin(), final(self)@.timeline()),
            old(self)@.pending is None ==> final(self).live() == old(self).live()
                && final(self).retained() == old(self).retained(),
    {
        if let Some(target) = self.rollback_target {
            let outcome = self.rollback_to(target - 1);
            assert(outcome is Ok);
        }
    }

    /// Simulates one more frame, unless the simulation has to wait. A pending
    /// correction is made first. Then, where the simulation may go on, the
    /// local input is confirmed for the frame `input_delay` after the new
    /// one, the new frame is simulated with the best that is known of its
    /// inputs, its snapshot is taken, and the snapshots from before the frame
    /// ahead of the confirmed horizon are dropped.
    pub fn advance(&mut self, local_input: BoxInput) -> (outcome: TickOutcome)
        requires
            old(self).wf(),
        ensures
            final(self).wf(),
            final(self)@ == old(self)@.ticked(local_input.inp),
            final(self).origin() == old(self).origin(),
            final(self).live() == replay::<S>(final(self).origin(), final(self)@.timeline()),
            outcome == if old(self)@.stalled() {
                TickOutcome::Stalled
            } else {
                TickOutcome::Advanced {
                    frame: (old(self)@.frame + 1) as u32,
                    sent: InputFrame {
                        frame_number: (old(self)@.frame + 1 + old(self)@.delay) as u32,
                        bitmask: local_input.inp,
                        confirmation: InputStatus::Confirmed,
                    },
                }
            },
            !old(self)@.stalled() ==> final(self).live() == S::step_spec(
                replay::<S>(old(self).origin(), old(self)@.timeline()),
                final(self)@.inputs_at(final(self)@.frame as int),
            ),
    {
        let ghost entry = self@;
        self.reconcile();
        proof {
            entry.lemma_reconciled();
        }
        if self.is_stalled() {
            return TickOutcome::Stalled;
        }
        let ghost before = self@;
        let ghost after = before.advanced(local_input.inp);
        let ghost stepped = SchedulerModel { oldest: before.oldest, ..after };
        let ghost timeline = before.timeline();
        let ghost origin = self.origin();
        let ghost kept = self.retained();
        proof {
            before.lemma_advanced(local_input.inp);
        }
        let next: u32 = self.frame_count.frame + 1;
        let tagged: u32 = next + self.input_delay;
        self.queues[self.local].extend(local_input.inp);
        assert(models(self.queues@) =~= after.queues);
        assert(forall|slot: int|
            0 <= slot < self.queues@.len() ==> (#[trigger] self.queues@[slot]).sound());
        let inputs = gather(&self.queues, next);
        proof {
            lemma_replay_push::<S>(origin, timeline, after.inputs_at(next as int));
        }
        self.simulation.step(&inputs);
        increase_frame_system(&mut self.frame_count);
        self.store.capture(next, &self.simulation);
        let horizon: u32 = Self::horizon_of(
            &self.queues,
            self.local,
            self.frame_count.frame,
            Ghost(stepped),
        );
        let floor: u32 = if horizon >= 1 {
            horizon - 1
        } else {
            0
        };
        if floor > self.oldest {
            self.store.evict_before(floor);
            self.oldest = floor;
        }
        proof {
            assert forall|frame: u32|
                self.retained().dom().contains(frame) <==> self@.oldest <= frame
                    <= self@.frame by {}
            assert forall|frame: u32|
                self@.oldest <= frame <= self@.frame && frame < self@.trusted_below()
                    implies #[trigger] self.retained()[frame] == replay::<S>(
                self.origin(),
                self@.timeline().take(frame as int),
            ) by {
                if frame == next {
                    assert(after.timeline().take(frame as int) =~= after.timeline());
                } else {
                    assert(kept[frame] == replay::<S>(origin, timeline.take(frame as int)));
                    assert(after.timeline().take(frame as int) =~= timeline.take(frame as int));
                }
            }
        }
        TickOutcome::Advanced {
            frame: next,
            sent: InputFrame {
                frame_number: tagged,
                bitmask: local_input.inp,
                confirmation: InputStatus::Confirmed,
            },
        }
    }

    /// One whole tick. Each input that arrived from a remote player is taken
    /// in, in order; then a pending correction is made and, unless the
    /// simulation has to wait, one more frame is simulated.
    pub fn tick(&mut self, local_input: BoxInput, arrived: &Vec<RemoteInput>) -> (outcome:
        TickOutcome)
        requires
            old(self).wf(),
        ensures
            final(self).wf(),
            final(self)@ == received_all(old(self)@, arrived@).ticked(local_input.inp),
            final(self).origin() == old(self).origin(),
            final(self).live() == replay::<S>(final(self).origin(), final(self)@.timeline()),
            outcome == if received_all(old(self)@, arrived@).stalled() {
                TickOutcome::Stalled
            } else {
                TickOutcome::Advanced {
                    frame: (old(self)@.frame + 1) as u32,
                    sent: InputFrame {
                        frame_number: (old(self)@.frame + 1 + old(self)@.delay) as u32,
                        bitmask: local_input.inp,
                        confirmation: InputStatus::Confirmed,
                    },
                }
            },
    {
        let ghost before = self@;
        let mut taken: usize = 0;
        while taken < arrived.len()
            invariant
                taken <= arrived@.len(),
                self.wf(),
                self@ == received_all(before, arrived@.take(taken as int)),
                self.origin() == old(self).origin(),
                self@.frame == before.frame,
                self@.delay == before.delay,
            decreases arrived@.len() - taken,
        {
            let input = arrived[taken];
            proof {
                assert(arrived@.take(taken + 1).drop_last() =~= arrived@.take(taken as int));
            }
            self.receive(input.slot, input.frame_number, input.input);
            taken += 1;
        }
        assert(arrived@.take(taken as int) =~= arrived@);
        self.advance(local_input)
    }
}

} // verus!
