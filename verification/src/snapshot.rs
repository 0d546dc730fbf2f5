//! The store of saved simulation states, one per retained frame.

use crate::error::SessionError;
use crate::simulation::Simulation;
use vstd::prelude::*;

verus! {

/// A saved simulation state, together with the frame it belongs to: the state
/// as it was when `frame_number` frames had been simulated.
pub struct Snapshot<S> {
    pub frame_number: u32,
    pub state: S,
}

/// The snapshots that a rollback can still go back to.
pub struct SnapshotStore<S> {
    ring: Vec<Snapshot<S>>,
}

/// Whether one of `ring` belongs to `frame`.
spec fn has_frame<S>(ring: Seq<Snapshot<S>>, frame: u32) -> bool {
    exists|i: int| 0 <= i < ring.len() && #[trigger] ring[i].frame_number == frame
}

/// The place in `ring` of the snapshot of `frame`.
spec fn place_of<S>(ring: Seq<Snapshot<S>>, frame: u32) -> int {
    choose|i: int| 0 <= i < ring.len() && #[trigger] ring[i].frame_number == frame
}

/// No two of `ring` belong to the same frame.
spec fn distinct_frames<S>(ring: Seq<Snapshot<S>>) -> bool {
    forall|i: int, j: int|
        0 <= i < j < ring.len() ==> #[trigger] ring[i].frame_number
            != #[trigger] ring[j].frame_number
}

impl<S: Simulation> View for SnapshotStore<S> {
    type V = Map<u32, S::V>;

    /// The saved state of each retained frame.
    closed spec fn view(&self) -> Map<u32, S::V> {
        Map::new(
            |frame: u32| has_frame(self.ring@, frame),
            |frame: u32| self.ring@[place_of(self.ring@, frame)].state@,
        )
    }
}

impl<S: Simulation> SnapshotStore<S> {
    /// No frame is stored twice.
    pub closed spec fn wf(&self) -> bool {
        distinct_frames(self.ring@)
    }

    /// A store that holds nothing.
    pub fn new() -> (store: Self)
        ensures
            store.wf(),
            store@ == Map::<u32, S::V>::empty(),
    {
        SnapshotStore { ring: Vec::new() }
    }

    /// The number of snapshots kept.
    pub fn len(&self) -> (n: usize)
        requires
            self.wf(),
        ensures
            self@.dom().finite(),
            n == self@.dom().len(),
    {
        proof {
            self.lemma_view_len();
        }
        self.ring.len()
    }

    spec fn frames_of(ring: Seq<Snapshot<S>>) -> Set<u32> {
        Set::new(|frame: u32| has_frame(ring, frame))
    }

    proof fn lemma_count_of(ring: Seq<Snapshot<S>>)
        requires
            distinct_frames(ring),
        ensures
            Self::frames_of(ring).finite(),
            Self::frames_of(ring).len() == ring.len(),
        decreases ring.len(),
    {
        if ring.len() == 0 {
            assert(Self::frames_of(ring) =~= Set::<u32>::empty());
        } else {
            let shorter = ring.drop_last();
            let frame = ring.last().frame_number;
            Self::lemma_count_of(shorter);
            assert(!has_frame(shorter, frame));
            assert(Self::frames_of(ring) =~= Self::frames_of(shorter).insert(frame)) by {
                assert forall|f: u32| Self::frames_of(ring).contains(f) implies Self::frames_of(
                    shorter,
                ).insert(frame).contains(f) by {
                    let i = place_of(ring, f);
                    if i < ring.len() - 1 {
                        assert(shorter[i].frame_number == f);
                    }
                }
                assert forall|f: u32|
                    Self::frames_of(shorter).insert(frame).contains(f) implies Self::frames_of(
                    ring,
                ).contains(f) by {}
            }
        }
    }

    /// The view holds as many frames as there are snapshots.
    proof fn lemma_view_len(&self)
        requires
            self.wf(),
        ensures
            self@.dom().finite(),
            self@.dom().len() == self.ring@.len(),
    {
        Self::lemma_count_of(self.ring@);
    }

    /// The place of the snapshot of `frame_number`, if it is kept.
    fn find(&self, frame_number: u32) -> (place: Option<usize>)
        ensures
            match place {
                Some(i) => i < self.ring@.len() && self.ring@[i as int].frame_number
                    == frame_number,
                None => !has_frame(self.ring@, frame_number),
            },
    {
        let mut i: usize = 0;
        while i < self.ring.len()
            invariant
                i <= self.ring@.len(),
                forall|k: int| 0 <= k < i ==> self.ring@[k].frame_number != frame_number,
            decreases self.ring@.len() - i,
        {
            if self.ring[i].frame_number == frame_number {
                return Some(i);
            }
            i += 1;
        }
        None
    }

    /// Whether the snapshot of `frame_number` is kept.
    pub fn contains(&self, frame_number: u32) -> (kept: bool)
        ensures
            kept == self@.dom().contains(frame_number),
    {
        self.find(frame_number).is_some()
    }

    /// Saves the state of `simulation` as the snapshot of `frame_number`, in
    /// place of an earlier snapshot of that frame if there is one.
    pub fn capture(&mut self, frame_number: u32, simulation: &S)
        requires
            old(self).wf(),
        ensures
            final(self).wf(),
            final(self)@ == old(self)@.insert(frame_number, simulation@),
    {
        let snapshot = Snapshot { frame_number, state: simulation.snapshot() };
        let ghost before = self.ring@;
        match self.find(frame_number) {
            Some(place) => {
                self.ring.set(place, snapshot);
                proof {
                    let after = self.ring@;
                    assert forall|f: u32| has_frame(after, f) == has_frame(before, f) by {
                        if has_frame(before, f) {
                            let i = place_of(before, f);
                            assert(after[i].frame_number == f);
                        }
                    }
                    assert forall|f: u32| has_frame(after, f) implies #[trigger] after[place_of(
                        after,
                        f,
                    )].state@ == (if f == frame_number {
                        simulation@
                    } else {
                        before[place_of(before, f)].state@
                    }) by {}
                }
            },
            None => {
                self.ring.push(snapshot);
                proof {
                    let after = self.ring@;
                    assert(after[before.len() as int].frame_number == frame_number);
                    assert forall|f: u32|
                        has_frame(after, f) == (f == frame_number || has_frame(before, f)) by {
                        if has_frame(before, f) {
                            let i = place_of(before, f);
                            assert(after[i].frame_number == f);
                        }
                    }
                    assert forall|f: u32| has_frame(after, f) implies #[trigger] after[place_of(
                        after,
                        f,
                    )].state@ == (if f == frame_number {
                        simulation@
                    } else {
                        before[place_of(before, f)].state@
                    }) by {}
                }
            },
        }
    }

    /// Puts the state saved for `frame_number` back into `simulation`. Where
    /// that snapshot is not kept, `simulation` stays as it is.
    pub fn restore(&self, frame_number: u32, simulation: &mut S) -> (outcome: Result<
        (),
        SessionError,
    >)
        requires
            self.wf(),
        ensures
            outcome is Ok <==> self@.dom().contains(frame_number),
            outcome is Ok ==> final(simulation)@ == self@[frame_number],
            outcome is Err ==> outcome == Err::<(), SessionError>(SessionError::SnapshotNotFound)
                && final(simulation)@ == old(simulation)@,
    {
        match self.find(frame_number) {
            Some(place) => {
                proof {
                    let chosen = place_of(self.ring@, frame_number);
                    if chosen < place {
                        assert(self.ring@[chosen].frame_number != self.ring@[place as int]
                            .frame_number);
                    } else if place < chosen {
                        assert(self.ring@[place as int].frame_number
                            != self.ring@[chosen].frame_number);
                    }
                }
                simulation.restore(&self.ring[place].state);
                Ok(())
            },
            None => Err(SessionError::SnapshotNotFound),
        }
    }

    /// Drops every snapshot of a frame before `horizon`.
    pub fn evict_before(&mut self, horizon: u32)
        requires
            old(self).wf(),
        ensures
            final(self).wf(),
            final(self)@ == old(self)@.restrict(Set::new(|frame: u32| frame >= horizon)),
    {
        let ghost before = self.ring@;
        let mut kept: Vec<Snapshot<S>> = Vec::new();
        let ghost mut origin: Seq<int> = Seq::empty();
        while self.ring.len() > 0
            invariant
                self.ring@.len() <= before.len(),
                self.ring@ == before.take(self.ring@.len() as int),
                distinct_frames(before),
                kept@.len() == origin.len(),
                kept@.len() + self.ring@.len() <= before.len(),
                forall|k: int|
                    0 <= k < kept@.len() ==> self.ring@.len() <= #[trigger] origin[k]
                        < before.len() && kept@[k] == before[origin[k]]
                        && before[origin[k]].frame_number >= horizon,
                forall|j: int|
                    self.ring@.len() <= j < before.len() && (#[trigger] before[j]).frame_number
                        >= horizon ==> exists|k: int|
                        0 <= k < kept@.len() && #[trigger] origin[k] == j,
                forall|k: int, l: int|
                    0 <= k < l < kept@.len() ==> #[trigger] origin[k] != #[trigger] origin[l],
            decreases self.ring@.len(),
        {
            let ghost place = self.ring@.len() - 1;
            let ghost kept_before = kept@;
            let ghost origin_before = origin;
            let snapshot = self.ring.pop().unwrap();
            if snapshot.frame_number >= horizon {
                kept.push(snapshot);
                proof {
                    origin = origin.push(place);
                    assert forall|j: int|
                        self.ring@.len() <= j < before.len() && (#[trigger] before[j]).frame_number
                            >= horizon implies exists|k: int|
                        0 <= k < kept@.len() && #[trigger] origin[k] == j by {
                        if j == place {
                            assert(origin[kept@.len() - 1] == j);
                        } else {
                            let k = choose|k: int|
                                0 <= k < kept_before.len() && #[trigger] origin_before[k] == j;
                            assert(origin[k] == j);
                        }
                    }
                }
            } else {
                proof {
                    assert forall|j: int|
                        self.ring@.len() <= j < before.len() && (#[trigger] before[j]).frame_number
                            >= horizon implies exists|k: int|
                        0 <= k < kept@.len() && #[trigger] origin[k] == j by {}
                }
            }
        }
        self.ring = kept;
        proof {
            let after = self.ring@;
            assert(distinct_frames(after)) by {
                assert forall|i: int, j: int| 0 <= i < j < after.len() implies #[trigger] after[i]
                    .frame_number != #[trigger] after[j].frame_number by {
                    if origin[i] < origin[j] {
                        assert(before[origin[i]].frame_number != before[origin[j]].frame_number);
                    } else {
                        assert(before[origin[j]].frame_number != before[origin[i]].frame_number);
                    }
                }
            }
            assert forall|f: u32| has_frame(after, f) == (has_frame(before, f) && f >= horizon) by {
                if has_frame(after, f) {
                    let k = place_of(after, f);
                    assert(before[origin[k]].frame_number == f);
                }
            }
            assert forall|f: u32| has_frame(after, f) implies #[trigger] after[place_of(
                after,
                f,
            )].state@ == before[place_of(before, f)].state@ by {}
        }
    }
}

} // verus!
