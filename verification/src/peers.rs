//! The set of peers of a match: who has joined, in what order, and which
//! player slot each one gets.

use vstd::prelude::*;

verus! {

/// Whether a player slot is played on this machine or by a remote peer.
#[derive(Clone, Copy, Debug, PartialEq, Eq, Structural)]
pub enum SlotKind {
    Local,
    Remote,
}

/// One player slot of a session. The index is the key under which the
/// scheduler keeps the slot's inputs; it does not change while the session
/// lasts.
#[derive(Clone, Copy, Debug, PartialEq, Eq, Structural)]
pub struct PlayerSlot {
    pub index: usize,
    pub kind: SlotKind,
    /// The peer behind a remote slot.
    pub channel: Option<u64>,
}

/// `known`, followed by those of `fresh` that are new, each once, in the
/// order in which they come.
pub open spec fn merged(known: Seq<u64>, fresh: Seq<u64>) -> Seq<u64>
    decreases fresh.len(),
{
    if fresh.len() == 0 {
        known
    } else {
        let before = merged(known, fresh.drop_last());
        if before.contains(fresh.last()) {
            before
        } else {
            before.push(fresh.last())
        }
    }
}

/// The slot of the remote peer that is the `place`-th to have arrived, in a
/// session whose local player sits in slot `local`: the remote peers fill the
/// other slots in the order of their arrival.
pub open spec fn remote_seat(local: int, place: int) -> int {
    if place < local {
        place
    } else {
        place + 1
    }
}

/// The slot table of a session whose remote peers are `peers` and whose local
/// player has the place `local` in the transport's list of players: slot
/// `local` is the local one, and the peers fill the others in the order of
/// their arrival.
pub open spec fn seating(peers: Seq<u64>, local: int) -> Seq<PlayerSlot>
    recommends
        0 <= local <= peers.len(),
{
    Seq::new(
        peers.len() + 1,
        |i: int|
            if i == local {
                PlayerSlot { index: i as usize, kind: SlotKind::Local, channel: None }
            } else {
                PlayerSlot {
                    index: i as usize,
                    kind: SlotKind::Remote,
                    channel: Some(
                        peers[if i < local {
                            i
                        } else {
                            i - 1
                        }],
                    ),
                }
            },
    )
}

/// The player slot of a peer that has joined.
pub open spec fn seat_of(peers: Seq<u64>, local: int, peer: u64) -> int {
    remote_seat(local, peers.index_of(peer))
}

/// `peers` without `peer`, the others in the order they have.
pub open spec fn without(peers: Seq<u64>, peer: u64) -> Seq<u64> {
    if peers.contains(peer) {
        peers.remove(peers.index_of(peer))
    } else {
        peers
    }
}

/// `peers` without any of `left`.
pub open spec fn without_all(peers: Seq<u64>, left: Seq<u64>) -> Seq<u64>
    decreases left.len(),
{
    if left.len() == 0 {
        peers
    } else {
        without(without_all(peers, left.drop_last()), left.last())
    }
}

/// A merge keeps what was known in front, and holds just what was known or
/// is fresh.
pub proof fn lemma_merged_holds(known: Seq<u64>, fresh: Seq<u64>)
    ensures
        known.len() <= merged(known, fresh).len() <= known.len() + fresh.len(),
        forall|i: int| 0 <= i < known.len() ==> merged(known, fresh)[i] == known[i],
        forall|peer: u64|
            merged(known, fresh).contains(peer) <==> known.contains(peer) || fresh.contains(peer),
        known.no_duplicates() ==> merged(known, fresh).no_duplicates(),
    decreases fresh.len(),
{
    if fresh.len() > 0 {
        let rest = fresh.drop_last();
        let before = merged(known, rest);
        lemma_merged_holds(known, rest);
        assert forall|peer: u64|
            merged(known, fresh).contains(peer) <==> known.contains(peer) || fresh.contains(
                peer,
            ) by {
            if fresh.contains(peer) {
                let i = choose|i: int| 0 <= i < fresh.len() && fresh[i] == peer;
                if i < fresh.len() - 1 {
                    assert(rest[i] == peer);
                }
            }
            if rest.contains(peer) {
                let i = choose|i: int| 0 <= i < rest.len() && rest[i] == peer;
                assert(fresh[i] == peer);
            }
            if before.contains(peer) {
                let i = choose|i: int| 0 <= i < before.len() && before[i] == peer;
                assert(merged(known, fresh)[i] == peer);
            }
            if !before.contains(fresh.last()) {
                assert(merged(known, fresh)[before.len() as int] == fresh.last());
            }
        }
    }
}

/// Merging peers that are all known already changes nothing.
pub proof fn lemma_merged_known(known: Seq<u64>, fresh: Seq<u64>)
    requires
        forall|i: int| 0 <= i < fresh.len() ==> known.contains(#[trigger] fresh[i]),
    ensures
        merged(known, fresh) == known,
    decreases fresh.len(),
{
    if fresh.len() > 0 {
        let rest = fresh.drop_last();
        assert forall|i: int| 0 <= i < rest.len() implies known.contains(#[trigger] rest[i]) by {}
        lemma_merged_known(known, rest);
    }
}

/// Polling is idempotent: to merge the same peers a second time changes
/// nothing.
pub proof fn lemma_merged_idempotent(known: Seq<u64>, fresh: Seq<u64>)
    ensures
        merged(merged(known, fresh), fresh) == merged(known, fresh),
{
    lemma_merged_holds(known, fresh);
    assert forall|i: int| 0 <= i < fresh.len() implies merged(known, fresh).contains(
        #[trigger] fresh[i],
    ) by {
        assert(fresh.contains(fresh[i]));
    }
    lemma_merged_known(merged(known, fresh), fresh);
}

/// The remote peers that have joined, in the order of their arrival, and the
/// place of the local player among all the players.
pub struct PeerChannelSet {
    peers: Vec<u64>,
    local: usize,
}

impl View for PeerChannelSet {
    type V = Seq<u64>;

    closed spec fn view(&self) -> Seq<u64> {
        self.peers@
    }
}

impl PeerChannelSet {
    /// The place of the local player in the transport's list of players.
    pub closed spec fn local(&self) -> usize {
        self.local
    }

    /// No peer is listed twice.
    pub open spec fn wf(&self) -> bool {
        self@.no_duplicates()
    }

    /// A set with no remote peer in it yet, and the local player first.
    pub fn new() -> (set: PeerChannelSet)
        ensures
            set.wf(),
            set@ == Seq::<u64>::empty(),
            set.local() == 0,
    {
        PeerChannelSet { peers: Vec::new(), local: 0 }
    }

    /// Notes the place that the local player has in the transport's list of
    /// players.
    pub fn seat_local(&mut self, place: usize)
        ensures
            final(self)@ == old(self)@,
            final(self).local() == place,
    {
        self.local = place;
    }

    /// The place of the local player in the transport's list of players.
    pub fn local_place(&self) -> (place: usize)
        ensures
            place == self.local(),
    {
        self.local
    }

    /// Whether `peer` has joined.
    pub fn contains(&self, peer: u64) -> (known: bool)
        ensures
            known == self@.contains(peer),
    {
        self.slot_of(peer).is_some()
    }

    /// The place of `peer` in the order of arrival, where it has joined.
    fn place_of(&self, peer: u64) -> (place: Option<usize>)
        ensures
            place is Some <==> self@.contains(peer),
            place is Some ==> place->0 < self@.len() && self@[place->0 as int] == peer,
            place is Some && self.wf() ==> place->0 == self@.index_of(peer),
    {
        let mut i: usize = 0;
        while i < self.peers.len()
            invariant
                i <= self.peers@.len(),
                forall|k: int| 0 <= k < i ==> self.peers@[k] != peer,
            decreases self.peers@.len() - i,
        {
            if self.peers[i] == peer {
                proof {
                    if self.wf() {
                        let chosen = self@.index_of(peer);
                        assert(self@[chosen] == self@[i as int]);
                    }
                }
                return Some(i);
            }
            i += 1;
        }
        None
    }

    /// The player slot of `peer`, where it has joined.
    pub fn slot_of(&self, peer: u64) -> (slot: Option<usize>)
        ensures
            slot is Some <==> self@.contains(peer),
            slot is Some ==> slot->0 <= self@.len() && slot->0 != self.local(),
            slot is Some && self.wf() ==> slot->0 == seat_of(self@, self.local() as int, peer),
    {
        let count: usize = self.peers.len();
        match self.place_of(peer) {
            Some(place) => {
                assert(place < count);
                Some(
                    if place < self.local {
                        place
                    } else {
                        place + 1
                    },
                )
            },
            None => None,
        }
    }

    /// Takes in the peers whose handshake has completed since the last poll,
    /// and gives the number of remote peers that have joined by now. A peer
    /// that is known already is not added again.
    pub fn poll_new_connections(&mut self, fresh: &Vec<u64>) -> (count: usize)
        requires
            old(self).wf(),
        ensures
            final(self).wf(),
            final(self)@ == merged(old(self)@, fresh@),
            final(self).local() == old(self).local(),
            count == final(self)@.len(),
    {
        let mut taken: usize = 0;
        while taken < fresh.len()
            invariant
                taken <= fresh@.len(),
                self.wf(),
                self.local() == old(self).local(),
                self@ == merged(old(self)@, fresh@.take(taken as int)),
            decreases fresh@.len() - taken,
        {
            let peer: u64 = fresh[taken];
            proof {
                assert(fresh@.take(taken + 1).drop_last() =~= fresh@.take(taken as int));
                lemma_merged_holds(old(self)@, fresh@.take(taken + 1));
            }
            if !self.contains(peer) {
                self.peers.push(peer);
            }
            taken += 1;
        }
        assert(fresh@.take(taken as int) =~= fresh@);
        self.peers.len()
    }

    /// Forgets a peer that has left before the session was built. Says
    /// whether it had joined.
    pub fn forget(&mut self, peer: u64) -> (known: bool)
        requires
            old(self).wf(),
        ensures
            final(self).wf(),
            known == old(self)@.contains(peer),
            final(self)@ == without(old(self)@, peer),
            final(self).local() == old(self).local(),
            !final(self)@.contains(peer),
    {
        match self.place_of(peer) {
            Some(place) => {
                self.peers.remove(place);
                proof {
                    let after = self@;
                    assert forall|i: int, j: int| 0 <= i < j < after.len() implies after[i]
                        != after[j] by {}
                }
                true
            },
            None => false,
        }
    }

    /// Forgets each of `left`.
    pub fn forget_all(&mut self, left: &Vec<u64>)
        requires
            old(self).wf(),
        ensures
            final(self).wf(),
            final(self)@ == without_all(old(self)@, left@),
            final(self).local() == old(self).local(),
            final(self)@.len() <= old(self)@.len(),
    {
        let mut taken: usize = 0;
        while taken < left.len()
            invariant
                taken <= left@.len(),
                self.wf(),
                self.local() == old(self).local(),
                self@ == without_all(old(self)@, left@.take(taken as int)),
                self@.len() <= old(self)@.len(),
            decreases left@.len() - taken,
        {
            proof {
                assert(left@.take(taken + 1).drop_last() =~= left@.take(taken as int));
            }
            self.forget(left[taken]);
            taken += 1;
        }
        assert(left@.take(taken as int) =~= left@);
    }

    /// The number of remote peers that have joined.
    pub fn peer_count(&self) -> (count: usize)
        ensures
            count == self@.len(),
    {
        self.peers.len()
    }

    /// Whether a match of `num_players` can be made: just as many remote
    /// peers have joined as the match has players besides the local one.
    pub fn has_quorum(&self, num_players: usize) -> (ready: bool)
        ensures
            ready == (self@.len() == num_players - 1),
    {
        num_players >= 1 && self.peers.len() == num_players - 1
    }

    /// The slots that are played on this machine: the place of the local
    /// player.
    pub fn local_slots(&self) -> (slots: Vec<usize>)
        ensures
            slots@ == seq![self.local()],
    {
        let mut slots: Vec<usize> = Vec::new();
        slots.push(self.local);
        slots
    }

    /// The slots that are played by remote peers, in the order of their
    /// arrival.
    pub fn remote_slots(&self) -> (slots: Vec<usize>)
        ensures
            slots@ == Seq::new(
                self@.len(),
                |i: int| remote_seat(self.local() as int, i) as usize,
            ),
    {
        let mut slots: Vec<usize> = Vec::new();
        let mut i: usize = 0;
        while i < self.peers.len()
            invariant
                i <= self.peers@.len(),
                slots@.len() == i,
                forall|k: int|
                    0 <= k < i ==> slots@[k] == remote_seat(self.local() as int, k) as usize,
            decreases self.peers@.len() - i,
        {
            slots.push(
                if i < self.local {
                    i
                } else {
                    i + 1
                },
            );
            i += 1;
        }
        assert(slots@ =~= Seq::new(
            self@.len(),
            |i: int| remote_seat(self.local() as int, i) as usize,
        ));
        slots
    }

    /// The slot table of a session made of the local player and the peers
    /// that have joined: slot `i` is that of the `i`-th player of the
    /// transport's list.
    pub fn seats(&self) -> (slots: Vec<PlayerSlot>)
        requires
            self.local() <= self@.len(),
        ensures
            slots@ == seating(self@, self.local() as int),
    {
        let mut slots: Vec<PlayerSlot> = Vec::new();
        let mut i: usize = 0;
        while i <= self.peers.len()
            invariant
                i <= self.peers@.len() + 1,
                self.local() <= self@.len(),
                slots@.len() == i,
                forall|k: int|
                    0 <= k < i ==> slots@[k] == seating(self@, self.local() as int)[k],
            decreases self.peers@.len() + 1 - i,
        {
            if i == self.local {
                slots.push(PlayerSlot { index: i, kind: SlotKind::Local, channel: None });
            } else {
                let place: usize = if i < self.local {
                    i
                } else {
                    i - 1
                };
                slots.push(
                    PlayerSlot { index: i, kind: SlotKind::Remote, channel: Some(self.peers[place]) },
                );
            }
            if i == self.peers.len() {
                assert(slots@ =~= seating(self@, self.local() as int));
                return slots;
            }
            i += 1;
        }
        slots
    }
}

} // verus!
