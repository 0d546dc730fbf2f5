//! Network-quality telemetry: what was last measured of the link to each
//! remote peer. It is there to be shown; nothing in the scheduler reads it.

use vstd::prelude::*;

verus! {

/// The quality of the link to one remote peer, as last measured.
#[derive(Clone, Copy, Debug, PartialEq, Eq, Structural)]
pub struct NetworkStats {
    /// The round-trip time, in milliseconds.
    pub ping: u128,
    /// The rate at which data goes out, in kilobits per second.
    pub kbps_sent: usize,
    /// By how many frames the local simulation is behind the peer's.
    pub local_frames_behind: i32,
    /// By how many frames the peer's simulation is behind the local one.
    pub remote_frames_behind: i32,
}

/// Takes a fresh measurement into `network_status`. Where the measurement
/// failed there is none, and `network_status` keeps what it holds: a sample
/// that could not be taken says nothing new of the link.
pub fn update_networking_stats(network_status: &mut NetworkStats, stats: Option<NetworkStats>)
    ensures
        *final(network_status) == match stats {
            Some(fresh) => fresh,
            None => *old(network_status),
        },
{
    if let Some(fresh) = stats {
        network_status.kbps_sent = fresh.kbps_sent;
        network_status.local_frames_behind = fresh.local_frames_behind;
        network_status.remote_frames_behind = fresh.remote_frames_behind;
        network_status.ping = fresh.ping;
    }
}

/// The table after a measurement of `slot` was taken in: the entry of `slot`
/// holds the fresh measurement where there is one and the slot exists, and
/// everything else is as it was.
pub open spec fn sampled(
    table: Seq<Option<NetworkStats>>,
    slot: int,
    stats: Option<NetworkStats>,
) -> Seq<Option<NetworkStats>> {
    if 0 <= slot < table.len() && stats is Some {
        table.update(slot, stats)
    } else {
        table
    }
}

/// Whether a sample is due at a tick, when one is taken every `interval`
/// ticks: at every tick whose number is a multiple of the interval. With an
/// interval of 0 none is ever due.
pub open spec fn due_at(interval: u32, tick: u64) -> bool {
    interval > 0 && tick % (interval as u64) == 0
}

/// Keeps the last measurement of each player slot, and says when the next
/// one is due.
pub struct NetworkStatsMonitor {
    interval: u32,
    ticks: u64,
    table: Vec<Option<NetworkStats>>,
}

impl View for NetworkStatsMonitor {
    type V = Seq<Option<NetworkStats>>;

    /// The last measurement of each slot, where one was ever taken.
    closed spec fn view(&self) -> Seq<Option<NetworkStats>> {
        self.table@
    }
}

impl NetworkStatsMonitor {
    /// The number of ticks between two samples.
    pub closed spec fn interval(&self) -> u32 {
        self.interval
    }

    /// The number of ticks counted so far.
    pub closed spec fn ticks(&self) -> u64 {
        self.ticks
    }

    /// A monitor for `num_slots` player slots that samples every `interval`
    /// ticks. Nothing has been measured yet.
    pub fn new(num_slots: usize, interval: u32) -> (monitor: NetworkStatsMonitor)
        ensures
            monitor@ == Seq::new(num_slots as nat, |i: int| None::<NetworkStats>),
            monitor.interval() == interval,
            monitor.ticks() == 0,
    {
        let mut table: Vec<Option<NetworkStats>> = Vec::new();
        let mut slot: usize = 0;
        while slot < num_slots
            invariant
                slot <= num_slots,
                table@.len() == slot,
                forall|i: int| 0 <= i < slot ==> table@[i] == None::<NetworkStats>,
            decreases num_slots - slot,
        {
            table.push(None);
            slot += 1;
        }
        NetworkStatsMonitor { interval, ticks: 0, table }
    }

    /// Counts one tick, and says whether a sample is due at it. The count
    /// stops at the largest number it can hold.
    pub fn tick(&mut self) -> (due: bool)
        ensures
            final(self)@ == old(self)@,
            final(self).interval() == old(self).interval(),
            final(self).ticks() == if old(self).ticks() < u64::MAX {
                (old(self).ticks() + 1) as u64
            } else {
                old(self).ticks()
            },
            due == due_at(final(self).interval(), final(self).ticks()),
    {
        if self.ticks < u64::MAX {
            self.ticks += 1;
        }
        self.interval > 0 && self.ticks % (self.interval as u64) == 0
    }

    /// Takes in the outcome of a measurement of the link to the peer of
    /// `slot`. A measurement that failed leaves the last one in place.
    pub fn sample(&mut self, slot: usize, stats: Option<NetworkStats>)
        ensures
            final(self)@ == sampled(old(self)@, slot as int, stats),
            final(self).interval() == old(self).interval(),
            final(self).ticks() == old(self).ticks(),
    {
        if slot < self.table.len() {
            if let Some(fresh) = stats {
                self.table.set(slot, Some(fresh));
            }
        }
    }

    /// The last measurement of the link to the peer of `slot`, if one was
    /// ever taken.
    pub fn stats_of(&self, slot: usize) -> (stats: Option<NetworkStats>)
        ensures
            stats == if slot < self@.len() {
                self@[slot as int]
            } else {
                None
            },
    {
        if slot < self.table.len() {
            self.table[slot]
        } else {
            None
        }
    }
}

} // verus!
