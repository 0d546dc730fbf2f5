//! The mathematical model of the rollback scheduler: what is known of each
//! player's input, and which input each frame is simulated with.
//!
//! Frames are counted from 1. Frame 0 names the state before anything was
//! simulated.

use crate::input::{bitmasks, InputFrame, InputStatus};
use vstd::prelude::*;

verus! {

/// What is known of the inputs of one player slot.
pub struct QueueModel {
    /// Entry `i` is the true input of frame `i + 1`, where it has arrived.
    pub known: Seq<Option<u8>>,
    /// For a player who has left: the last frame before the player was
    /// reported gone.
    pub gone_after: Option<u32>,
}

impl QueueModel {
    /// Whether the player is still there.
    pub open spec fn connected(self) -> bool {
        self.gone_after is None
    }

    /// Whether the true input of `frame` has arrived.
    pub open spec fn confirmed(self, frame: int) -> bool {
        1 <= frame <= self.known.len() && self.known[frame - 1] is Some
    }

    /// The prediction for `frame`: the input of the last frame before it
    /// whose true input has arrived, held; nothing pressed where there is no
    /// such frame.
    pub open spec fn held(self, frame: int) -> u8
        decreases frame,
    {
        if frame <= 1 {
            0
        } else if self.confirmed(frame - 1) {
            self.known[frame - 2]->0
        } else {
            self.held(frame - 1)
        }
    }

    /// The best that is known of the input of frame `frame`.
    pub open spec fn input_at(self, frame: int) -> InputFrame {
        if self.gone_after is Some && frame > self.gone_after->0 {
            InputFrame {
                frame_number: frame as u32,
                bitmask: 0,
                confirmation: InputStatus::Disconnected,
            }
        } else if self.confirmed(frame) {
            InputFrame {
                frame_number: frame as u32,
                bitmask: self.known[frame - 1]->0,
                confirmation: InputStatus::Confirmed,
            }
        } else {
            InputFrame {
                frame_number: frame as u32,
                bitmask: self.held(frame),
                confirmation: InputStatus::Predicted,
            }
        }
    }

    /// The last frame of the unbroken run of confirmed frames that follows
    /// `frame`; `frame` itself where the next one is not confirmed.
    pub open spec fn run_from(self, frame: int) -> int
        decreases self.known.len() - frame,
    {
        if frame >= 0 && self.confirmed(frame + 1) {
            self.run_from(frame + 1)
        } else {
            frame
        }
    }

    /// The last frame up to which every input has arrived.
    pub open spec fn run(self) -> int {
        self.run_from(0)
    }

    /// The queue once the true input of `frame` has arrived.
    pub open spec fn filled(self, frame: int, bits: u8) -> QueueModel {
        let room = if self.known.len() >= frame {
            self.known
        } else {
            self.known + Seq::new((frame - self.known.len()) as nat, |i: int| None::<u8>)
        };
        QueueModel { known: room.update(frame - 1, Some(bits)), gone_after: self.gone_after }
    }

    /// The run that follows a frame ends where the next gap is.
    pub proof fn lemma_run_from(self, frame: int)
        requires
            0 <= frame,
        ensures
            frame <= self.run_from(frame),
            self.run_from(frame) <= frame || self.run_from(frame) <= self.known.len(),
            forall|g: int| frame < g <= self.run_from(frame) ==> self.confirmed(g),
            !self.confirmed(self.run_from(frame) + 1),
        decreases self.known.len() - frame,
    {
        if self.confirmed(frame + 1) {
            self.lemma_run_from(frame + 1);
        }
    }

    /// Where every frame from `frame` to `upto` is confirmed, the run that
    /// follows `frame` is the run that follows `upto`.
    pub proof fn lemma_run_reaches(self, frame: int, upto: int)
        requires
            0 <= frame <= upto,
            forall|g: int| frame < g <= upto ==> self.confirmed(g),
        ensures
            self.run_from(frame) == self.run_from(upto),
        decreases upto - frame,
    {
        if frame < upto {
            self.lemma_run_reaches(frame + 1, upto);
        }
    }

    /// An input that arrives changes no prediction for its own frame or an
    /// earlier one, and none at all where it is what was predicted for its
    /// frame.
    pub proof fn lemma_filled_held(self, frame: int, bits: u8, at: int)
        requires
            1 <= frame,
            !self.confirmed(frame),
            at <= frame || bits == self.held(frame),
        ensures
            self.filled(frame, bits).held(at) == self.held(at),
        decreases at,
    {
        if at > 1 {
            self.lemma_filled_held(frame, bits, at - 1);
        }
    }

    /// An input that arrives changes nothing of the frames before it, and of
    /// the bitmasks of the frames after it only where it is not what was
    /// predicted for its frame.
    pub proof fn lemma_filled_keeps(self, frame: int, bits: u8, at: int)
        requires
            1 <= frame,
            1 <= at,
            !self.confirmed(frame),
            self.connected(),
            at < frame || bits == self.held(frame),
        ensures
            self.filled(frame, bits).input_at(at).bitmask == self.input_at(at).bitmask,
            at < frame ==> self.filled(frame, bits).input_at(at) == self.input_at(at),
    {
        self.lemma_filled_held(frame, bits, at);
    }

    /// A queue that grows at its end says of every frame it held what it said
    /// before.
    pub proof fn lemma_pushed_keeps(self, bits: u8, at: int)
        requires
            at <= self.known.len(),
        ensures
            (QueueModel { known: self.known.push(Some(bits)), gone_after: self.gone_after })
                .input_at(at) == self.input_at(at),
    {
        let after = QueueModel { known: self.known.push(Some(bits)), gone_after: self.gone_after };
        Self::lemma_same_held(self, after, at);
    }

    /// A player who goes after `last` says of every frame up to `last` what
    /// the queue said before.
    pub proof fn lemma_gone_keeps(self, last: u32, at: int)
        requires
            at <= last,
            self.connected(),
        ensures
            (QueueModel { known: self.known, gone_after: Some(last) }).input_at(at)
                == self.input_at(at),
    {
        let after = QueueModel { known: self.known, gone_after: Some(last) };
        Self::lemma_same_held(self, after, at);
    }

    /// Beyond the last frame that anything has arrived for, the prediction is
    /// the same for every frame.
    pub proof fn lemma_held_beyond(self, frame: int)
        requires
            frame >= self.known.len() + 1,
        ensures
            self.held(frame) == self.held(self.known.len() as int + 1),
        decreases frame,
    {
        if frame > self.known.len() + 1 {
            self.lemma_held_beyond(frame - 1);
        }
    }

    /// Two queues that agree on what has arrived have the same runs.
    pub proof fn lemma_same_run(first: QueueModel, second: QueueModel, frame: int)
        requires
            first.known == second.known,
        ensures
            first.run_from(frame) == second.run_from(frame),
        decreases first.known.len() - frame,
    {
        if frame >= 0 && first.confirmed(frame + 1) {
            Self::lemma_same_run(first, second, frame + 1);
        }
    }

    /// Two queues that agree on what has arrived before a frame predict the
    /// same for it.
    pub proof fn lemma_same_held(first: QueueModel, second: QueueModel, at: int)
        requires
            forall|g: int|
                1 <= g < at ==> first.confirmed(g) == second.confirmed(g) && (first.confirmed(g)
                    ==> first.known[g - 1] == second.known[g - 1]),
        ensures
            first.held(at) == second.held(at),
        decreases at,
    {
        if at > 1 {
            Self::lemma_same_held(first, second, at - 1);
        }
    }

    /// An input that arrives takes nothing from the run of confirmed frames.
    pub proof fn lemma_filled_run(self, frame: int, bits: u8)
        requires
            1 <= frame,
        ensures
            self.filled(frame, bits).run() >= self.run(),
            self.filled(frame, bits).confirmed(frame),
            self.filled(frame, bits).known.len() == if self.known.len() >= frame {
                self.known.len()
            } else {
                frame as nat
            },
            forall|g: int| self.confirmed(g) ==> self.filled(frame, bits).confirmed(g),
    {
        let after = self.filled(frame, bits);
        self.lemma_run_from(0);
        assert forall|g: int| self.confirmed(g) implies after.confirmed(g) by {}
        after.lemma_run_reaches(0, self.run());
        after.lemma_run_from(self.run());
    }
}

/// The state of a rollback scheduler, but for the simulation itself.
pub struct SchedulerModel {
    /// The number of frames simulated so far.
    pub frame: nat,
    /// How many frames the simulation may run ahead of the inputs confirmed by
    /// every remote peer.
    pub window: nat,
    /// By how many frames a local input is deferred.
    pub delay: nat,
    /// The slot of the local player.
    pub local: int,
    /// One queue per player slot.
    pub queues: Seq<QueueModel>,
    /// The earliest frame that was simulated with a prediction since found
    /// wrong, if there is one.
    pub pending: Option<u32>,
    /// The oldest frame whose snapshot is kept.
    pub oldest: nat,
}

/// The smaller of two frame numbers, where the first may be absent.
pub open spec fn earlier(pending: Option<u32>, frame: u32) -> u32 {
    match pending {
        Some(target) => if target <= frame {
            target
        } else {
            frame
        },
        None => frame,
    }
}

impl SchedulerModel {
    /// The number of player slots.
    pub open spec fn players(self) -> nat {
        self.queues.len()
    }

    /// Whether `slot` is the slot of a remote player.
    pub open spec fn remote(self, slot: int) -> bool {
        0 <= slot < self.queues.len() && slot != self.local
    }

    /// Whether `slot` is the slot of a remote player who is still there.
    pub open spec fn live_remote(self, slot: int) -> bool {
        self.remote(slot) && self.queues[slot].connected()
    }

    /// The best that is known of the input of `slot` for `frame`.
    pub open spec fn input_at(self, slot: int, frame: int) -> InputFrame {
        self.queues[slot].input_at(frame)
    }

    /// The best that is known of the inputs for `frame`, one per slot.
    pub open spec fn frames_at(self, frame: int) -> Seq<InputFrame> {
        Seq::new(self.queues.len(), |slot: int| self.queues[slot].input_at(frame))
    }

    /// The bitmasks that `frame` is simulated with, one per slot.
    pub open spec fn inputs_at(self, frame: int) -> Seq<u8> {
        bitmasks(self.frames_at(frame))
    }

    /// The bitmasks of every frame simulated so far: entry `i` belongs to
    /// frame `i + 1`.
    pub open spec fn timeline(self) -> Seq<Seq<u8>> {
        Seq::new(self.frame, |i: int| self.inputs_at(i + 1))
    }

    /// The last frame that a remote input is taken in for. No peer with the
    /// same window and delay can have sampled an input for a later frame: it
    /// simulates at most `window` frames beyond the local inputs it has, and
    /// those end `delay` frames after the last simulated one.
    pub open spec fn reach(self) -> nat {
        self.frame + self.window + 2 * self.delay
    }

    /// The invariant of a scheduler.
    pub open spec fn wf(self) -> bool {
        &&& 0 <= self.local < self.queues.len()
        &&& self.window <= u32::MAX
        &&& self.frame + self.delay <= u32::MAX
        &&& self.queues[self.local].known.len() == self.frame + self.delay
        &&& self.queues[self.local].run() == self.frame + self.delay
        &&& self.queues[self.local].connected()
        &&& forall|slot: int|
            0 <= slot < self.queues.len() ==> (#[trigger] self.queues[slot]).known.len()
                <= u32::MAX
        &&& forall|slot: int|
            0 <= slot < self.queues.len() && (#[trigger] self.queues[slot]).gone_after is Some
                ==> self.queues[slot].gone_after->0 <= self.frame
        &&& forall|slot: int| #[trigger]
            self.live_remote(slot) ==> self.frame <= self.queues[slot].run() + self.window
                && self.oldest <= self.queues[slot].run()
        &&& self.oldest <= self.frame <= self.oldest + self.window + 1
        &&& self.pending is Some ==> self.oldest < self.pending->0 <= self.frame
    }

    /// The first frame that may have been simulated with an input since found
    /// wrong; one past the last simulated frame where there is none.
    pub open spec fn trusted_below(self) -> int {
        match self.pending {
            Some(target) => target as int,
            None => (self.frame + 1) as int,
        }
    }

    /// Whether an input of `slot` for `frame` is taken in: the slot is that of
    /// a remote player who is still there, the frame is within reach, and its
    /// input has not arrived before.
    pub open spec fn accepts(self, slot: int, frame: u32) -> bool {
        &&& self.live_remote(slot)
        &&& 1 <= frame <= self.reach()
        &&& !self.queues[slot].confirmed(frame as int)
    }

    /// Whether an input that is taken in shows a prediction to be wrong: the
    /// frame has been simulated, and not with this bitmask.
    pub open spec fn mispredicts(self, slot: int, frame: u32, bits: u8) -> bool {
        &&& self.accepts(slot, frame)
        &&& frame <= self.frame
        &&& bits != self.queues[slot].input_at(frame as int).bitmask
    }

    /// The model after an input of `slot` for `frame` has arrived.
    pub open spec fn received(self, slot: int, frame: u32, bits: u8) -> SchedulerModel {
        if self.accepts(slot, frame) {
            SchedulerModel {
                queues: self.queues.update(slot, self.queues[slot].filled(frame as int, bits)),
                pending: if self.mispredicts(slot, frame, bits) {
                    Some(earlier(self.pending, frame))
                } else {
                    self.pending
                },
                ..self
            }
        } else {
            self
        }
    }

    /// The model after the player of `slot` was reported gone.
    pub open spec fn disconnected(self, slot: int) -> SchedulerModel {
        if self.live_remote(slot) {
            SchedulerModel {
                queues: self.queues.update(
                    slot,
                    QueueModel {
                        known: self.queues[slot].known,
                        gone_after: Some(self.frame as u32),
                    },
                ),
                ..self
            }
        } else {
            self
        }
    }

    /// The model after the simulation was brought in line with what is known.
    pub open spec fn reconciled(self) -> SchedulerModel {
        SchedulerModel { pending: None, ..self }
    }

    /// Whether the simulation has to wait: one more frame would take it more
    /// than `window` frames beyond what some remote peer has confirmed without
    /// a gap, or beyond what a frame number can hold.
    pub open spec fn stalled(self) -> bool {
        ||| self.frame + self.delay >= u32::MAX
        ||| exists|slot: int| #[trigger]
            self.live_remote(slot) && self.frame >= self.queues[slot].run() + self.window
    }

    /// The last frame, of those simulated, up to which the input of each of
    /// the first `slots` slots is known for certain.
    pub open spec fn horizon_among(self, slots: int) -> int
        decreases slots,
    {
        if slots <= 0 {
            self.frame as int
        } else {
            let rest = self.horizon_among(slots - 1);
            if self.live_remote(slots - 1) && self.queues[slots - 1].run() < rest {
                self.queues[slots - 1].run()
            } else {
                rest
            }
        }
    }

    /// The confirmed horizon: the last frame, of those simulated, up to which
    /// every player's input is known for certain.
    pub open spec fn horizon(self) -> int {
        self.horizon_among(self.queues.len() as int)
    }

    /// The oldest frame whose snapshot has to stay: the one before the
    /// confirmed horizon.
    pub open spec fn retention_floor(self) -> int {
        if self.horizon() >= 1 {
            self.horizon() - 1
        } else {
            0
        }
    }

    /// The model after one more frame was simulated, with `bits` as the local
    /// input sampled in that tick.
    pub open spec fn advanced(self, bits: u8) -> SchedulerModel {
        let stepped = SchedulerModel {
            frame: self.frame + 1,
            queues: self.queues.update(
                self.local,
                QueueModel {
                    known: self.queues[self.local].known.push(Some(bits)),
                    gone_after: self.queues[self.local].gone_after,
                },
            ),
            ..self
        };
        SchedulerModel {
            oldest: if stepped.retention_floor() > self.oldest {
                stepped.retention_floor() as nat
            } else {
                self.oldest
            },
            ..stepped
        }
    }

    /// The model after one whole tick without new remote input: a pending
    /// correction is made, and a frame is simulated unless the simulation has
    /// to wait.
    pub open spec fn ticked(self, bits: u8) -> SchedulerModel {
        if self.stalled() {
            self.reconciled()
        } else {
            self.reconciled().advanced(bits)
        }
    }

    /// The horizon is a simulated frame, and no remote player who is still
    /// there has confirmed less.
    pub proof fn lemma_horizon_bounds(self, slots: int)
        requires
            0 <= slots <= self.queues.len(),
        ensures
            0 <= self.horizon_among(slots) <= self.frame,
            forall|slot: int|
                0 <= slot < slots && #[trigger] self.live_remote(slot) ==> self.horizon_among(slots)
                    <= self.queues[slot].run(),
            self.horizon_among(slots) == self.frame || exists|slot: int|
                0 <= slot < slots && #[trigger] self.live_remote(slot) && self.horizon_among(slots)
                    == self.queues[slot].run(),
        decreases slots,
    {
        if slots > 0 {
            self.lemma_horizon_bounds(slots - 1);
            self.queues[slots - 1].lemma_run_from(0);
        }
    }

    /// An input that arrives changes nothing of the frames before it, and
    /// nothing at all of the simulated frames unless it shows a prediction to
    /// be wrong.
    pub proof fn lemma_received_keeps(self, slot: int, frame: u32, bits: u8, at: int)
        requires
            self.wf(),
            1 <= at <= self.frame,
            at < frame || !self.mispredicts(slot, frame, bits),
        ensures
            self.received(slot, frame, bits).inputs_at(at) == self.inputs_at(at),
    {
        let after = self.received(slot, frame, bits);
        assert(after.inputs_at(at) =~= self.inputs_at(at)) by {
            assert forall|s: int| 0 <= s < self.queues.len() implies after.queues[s].input_at(
                at,
            ).bitmask == self.queues[s].input_at(at).bitmask by {
                if self.accepts(slot, frame) && s == slot {
                    self.queues[slot].lemma_filled_keeps(frame as int, bits, at);
                }
            }
        }
    }

    /// An input that arrives leaves the invariant in place.
    pub proof fn lemma_received_wf(self, slot: int, frame: u32, bits: u8)
        requires
            self.wf(),
        ensures
            self.received(slot, frame, bits).wf(),
    {
        let after = self.received(slot, frame, bits);
        if self.accepts(slot, frame) {
            self.queues[slot].lemma_filled_run(frame as int, bits);
            self.queues[slot].lemma_run_from(0);
            assert forall|s: int| #[trigger] after.live_remote(s) implies after.frame
                <= after.queues[s].run() + after.window && after.oldest
                <= after.queues[s].run() by {
                assert(self.live_remote(s));
            }
        }
    }

    /// A correction changes nothing of what is known: the inputs of every
    /// frame are the same, and so is whether the simulation has to wait.
    pub proof fn lemma_reconciled(self)
        ensures
            self.reconciled().timeline() == self.timeline(),
            self.reconciled().stalled() == self.stalled(),
            self.reconciled().queues == self.queues,
            self.wf() ==> self.reconciled().wf(),
    {
        let after = self.reconciled();
        assert(after.timeline() =~= self.timeline()) by {
            assert forall|i: int| 0 <= i < self.frame implies #[trigger] after.timeline()[i]
                == self.timeline()[i] by {}
        }
        if self.stalled() && self.frame + self.delay < u32::MAX {
            let slot = choose|slot: int| #[trigger]
                self.live_remote(slot) && self.frame >= self.queues[slot].run() + self.window;
            assert(after.live_remote(slot));
        }
        if after.stalled() && self.frame + self.delay < u32::MAX {
            let slot = choose|slot: int| #[trigger]
                after.live_remote(slot) && after.frame >= after.queues[slot].run()
                    + after.window;
            assert(self.live_remote(slot));
        }
        if self.wf() {
            assert forall|slot: int| #[trigger] after.live_remote(slot) implies after.frame
                <= after.queues[slot].run() + after.window && after.oldest
                <= after.queues[slot].run() by {
                assert(self.live_remote(slot));
            }
        }
    }

    /// One more frame, simulated when nothing is pending and the simulation
    /// need not wait, leaves the invariant in place. The inputs of the frames
    /// before it are what they were.
    pub proof fn lemma_advanced(self, bits: u8)
        requires
            self.wf(),
            self.pending is None,
            !self.stalled(),
        ensures
            self.advanced(bits).wf(),
            self.advanced(bits).frame == self.frame + 1,
            self.advanced(bits).pending is None,
            self.advanced(bits).timeline() == self.timeline().push(
                self.advanced(bits).inputs_at(self.frame as int + 1),
            ),
            self.oldest <= self.advanced(bits).oldest <= self.frame + 1,
    {
        let after = self.advanced(bits);
        let stepped = SchedulerModel { oldest: self.oldest, ..after };
        let own = self.queues[self.local];
        let grown = after.queues[self.local];
        stepped.lemma_horizon_bounds(stepped.queues.len() as int);
        assert(grown.run() == self.frame + self.delay + 1) by {
            own.lemma_run_from(0);
            assert forall|g: int| 0 < g <= self.frame + self.delay + 1 implies grown.confirmed(
                g,
            ) by {
                if g <= self.frame + self.delay {
                    assert(own.confirmed(g));
                }
            }
            grown.lemma_run_reaches(0, (self.frame + self.delay + 1) as int);
            grown.lemma_run_from((self.frame + self.delay + 1) as int);
        }
        assert forall|slot: int| #[trigger] after.live_remote(slot) implies after.frame
            <= after.queues[slot].run() + after.window && after.oldest
            <= after.queues[slot].run() by {
            assert(self.live_remote(slot));
            assert(stepped.live_remote(slot));
        }
        assert(after.frame <= after.oldest + after.window + 1);
        assert(after.timeline() =~= self.timeline().push(after.inputs_at(self.frame as int + 1)))
            by {
            assert forall|i: int| 0 <= i < self.frame implies #[trigger] after.timeline()[i]
                == self.timeline()[i] by {
                assert(after.inputs_at(i + 1) =~= self.inputs_at(i + 1)) by {
                    own.lemma_pushed_keeps(bits, i + 1);
                }
            }
        }
    }

    /// A player reported gone changes nothing of the simulated frames, and the
    /// invariant stays in place.
    pub proof fn lemma_disconnected(self, slot: int)
        requires
            self.wf(),
        ensures
            self.disconnected(slot).wf(),
            self.disconnected(slot).timeline() == self.timeline(),
            self.disconnected(slot).pending == self.pending,
    {
        let after = self.disconnected(slot);
        if self.live_remote(slot) {
            assert forall|s: int| #[trigger] after.live_remote(s) implies after.frame
                <= after.queues[s].run() + after.window && after.oldest
                <= after.queues[s].run() by {
                assert(self.live_remote(s));
            }
            assert(after.timeline() =~= self.timeline()) by {
                assert forall|i: int| 0 <= i < self.frame implies #[trigger] after.timeline()[i]
                    == self.timeline()[i] by {
                    assert(after.inputs_at(i + 1) =~= self.inputs_at(i + 1)) by {
                        self.queues[slot].lemma_gone_keeps(self.frame as u32, i + 1);
                    }
                }
            }
        }
    }
}

} // verus!
