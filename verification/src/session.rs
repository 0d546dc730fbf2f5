//! The session manager: the state machine that takes a match from "no
//! connection" to running gameplay, one step per tick.
//!
//! The manager does no input or output itself. Before each tick its owner
//! gathers what the outside world has delivered, and after the tick it carries
//! out what the manager asks for.

use crate::arena::{lined_up, Arena};
use crate::config::SessionConfig;
use crate::error::SessionError;
use crate::input::BoxInput;
use crate::peers::{merged, seat_of, seating, without_all, PeerChannelSet, PlayerSlot};
use crate::scheduler::{received_all, RemoteInput, RollbackScheduler, TickOutcome};
use crate::simulation::{replay, Simulation};
use crate::timeline::SchedulerModel;
use vstd::arithmetic::power2::{lemma2_to64, pow2};
use vstd::prelude::*;

verus! {

/// How far the setup of a match has come. The stages follow one another in
/// this order; none is skipped.
#[derive(Clone, Copy, Debug, PartialEq, Eq, Structural)]
pub enum SessionStage {
    /// No connection to the signaling service.
    Idle,
    /// The signaling connection is open; peers are being looked for.
    SocketConnecting,
    /// Enough peers were found; the session is about to be built.
    AwaitingPeers,
    /// The session is built.
    SessionActive,
    /// The simulation runs.
    GameplayRunning,
}

/// An input of a remote peer, as the transport hands it over.
#[derive(Clone, Copy, Debug, PartialEq, Eq, Structural)]
pub struct PeerInput {
    pub peer: u64,
    pub frame_number: u32,
    pub input: BoxInput,
}

/// What the outside world has delivered since the last tick.
pub struct TickInput {
    /// Whether the signaling connection is open.
    pub signaling_open: bool,
    /// The peers whose handshake has completed.
    pub joined: Vec<u64>,
    /// The peers that have gone.
    pub left: Vec<u64>,
    /// The place of the local player in the transport's list of players.
    /// The slot of each player is its place in that list.
    pub local_slot: usize,
    /// The state of the local controls.
    pub local_input: BoxInput,
    /// The inputs that have arrived from remote peers, in order of arrival.
    pub arrived: Vec<PeerInput>,
}

/// What the manager did in a tick, and what it asks of its owner.
#[derive(Clone, Copy, Debug, PartialEq, Eq, Structural)]
pub enum Directive {
    /// Try to open the signaling connection.
    Connect,
    /// Nothing to do before the next tick.
    Wait,
    /// Keep polling the signaling service for peers.
    Poll,
    /// The session was built; its slot table can be read.
    Built,
    /// Gameplay has started; the next tick simulates.
    Started,
    /// The rollback scheduler ran one tick. Where it advanced, the input in
    /// the outcome goes out to every peer.
    Ticked(TickOutcome),
}

/// What a tick came to: what the manager asks of its owner, and the
/// condition, if any, that the tick met and took in its stride.
#[derive(Clone, Copy, Debug, PartialEq, Eq, Structural)]
pub struct TickReport {
    pub directive: Directive,
    /// `SignalingUnavailable` while the signaling connection is not open,
    /// `QuorumNotYetReached` while peers are missing, `PeerDisconnected` when
    /// a peer of the running session has gone in this tick.
    pub absorbed: Option<SessionError>,
}

/// After this many failed attempts in a row the wait between two attempts
/// grows no further.
pub const MAX_FAILURES: u32 = 7;

/// The number of ticks to let pass before the signaling connection is tried
/// again, after `failures` failed attempts in a row: none after the first,
/// then one less than twice as many each time, up to 63.
pub open spec fn backoff(failures: u32) -> u32 {
    if failures == 0 {
        0
    } else if failures >= MAX_FAILURES {
        63
    } else {
        (pow2((failures - 1) as nat) - 1) as u32
    }
}

/// The number of ticks to let pass before the next attempt.
pub fn backoff_ticks(failures: u32) -> (ticks: u32)
    ensures
        ticks == backoff(failures),
        ticks <= 63,
{
    proof {
        lemma2_to64();
    }
    match failures {
        0 => 0,
        1 => 0,
        2 => 1,
        3 => 3,
        4 => 7,
        5 => 15,
        6 => 31,
        _ => 63,
    }
}

/// The peers of the lobby after a tick: those that were known, then those
/// that have joined, without those that have gone.
pub open spec fn lobby(peers: Seq<u64>, joined: Seq<u64>, left: Seq<u64>) -> Seq<u64> {
    without_all(merged(peers, joined), left)
}

/// The inputs of `arrived` that come from a peer of the session, each with
/// the slot of its peer, in the same order.
pub open spec fn addressed(peers: Seq<u64>, local: int, arrived: Seq<PeerInput>) -> Seq<
    RemoteInput,
>
    decreases arrived.len(),
{
    if arrived.len() == 0 {
        Seq::empty()
    } else {
        let before = addressed(peers, local, arrived.drop_last());
        let input = arrived.last();
        if peers.contains(input.peer) {
            before.push(
                RemoteInput {
                    slot: seat_of(peers, local, input.peer) as usize,
                    frame_number: input.frame_number,
                    input: input.input,
                },
            )
        } else {
            before
        }
    }
}

/// The model of a scheduler after each peer of `left` that belongs to the
/// session was reported gone, in order.
pub open spec fn departed(
    model: SchedulerModel,
    peers: Seq<u64>,
    local: int,
    left: Seq<u64>,
) -> SchedulerModel
    decreases left.len(),
{
    if left.len() == 0 {
        model
    } else {
        let before = departed(model, peers, local, left.drop_last());
        if peers.contains(left.last()) {
            before.disconnected(seat_of(peers, local, left.last()))
        } else {
            before
        }
    }
}

/// Whether one of `left` is a peer of the session who was still there.
pub open spec fn any_departed(
    model: SchedulerModel,
    peers: Seq<u64>,
    local: int,
    left: Seq<u64>,
) -> bool
    decreases left.len(),
{
    if left.len() == 0 {
        false
    } else {
        any_departed(model, peers, local, left.drop_last()) || (peers.contains(left.last())
            && departed(model, peers, local, left.drop_last()).live_remote(
            seat_of(peers, local, left.last()),
        ))
    }
}

/// The model of the scheduler after one tick of gameplay: the peers that have
/// gone are noted, the inputs that have arrived are taken in, a pending
/// correction is made, and a frame is simulated unless the simulation has to
/// wait.
pub open spec fn played(
    model: SchedulerModel,
    peers: Seq<u64>,
    local: int,
    left: Seq<u64>,
    arrived: Seq<PeerInput>,
    bits: u8,
) -> SchedulerModel {
    received_all(departed(model, peers, local, left), addressed(peers, local, arrived)).ticked(
        bits,
    )
}

/// What the scheduler reports of that tick.
pub open spec fn played_outcome(
    model: SchedulerModel,
    peers: Seq<u64>,
    local: int,
    left: Seq<u64>,
    arrived: Seq<PeerInput>,
    bits: u8,
) -> TickOutcome {
    if received_all(
        departed(model, peers, local, left),
        addressed(peers, local, arrived),
    ).stalled() {
        TickOutcome::Stalled
    } else {
        TickOutcome::Advanced {
            frame: (model.frame + 1) as u32,
            sent: crate::input::InputFrame {
                frame_number: (model.frame + 1 + model.delay) as u32,
                bitmask: bits,
                confirmation: crate::input::InputStatus::Confirmed,
            },
        }
    }
}

/// Gives each input that comes from a peer of the session the slot of its
/// peer, and drops the others.
pub fn address(peers: &PeerChannelSet, arrived: &Vec<PeerInput>) -> (inputs: Vec<RemoteInput>)
    requires
        peers.wf(),
    ensures
        inputs@ == addressed(peers@, peers.local() as int, arrived@),
{
    let mut inputs: Vec<RemoteInput> = Vec::new();
    let mut taken: usize = 0;
    while taken < arrived.len()
        invariant
            taken <= arrived@.len(),
            peers.wf(),
            inputs@ == addressed(peers@, peers.local() as int, arrived@.take(taken as int)),
        decreases arrived@.len() - taken,
    {
        let input = arrived[taken];
        proof {
            assert(arrived@.take(taken + 1).drop_last() =~= arrived@.take(taken as int));
        }
        if let Some(slot) = peers.slot_of(input.peer) {
            inputs.push(RemoteInput { slot, frame_number: input.frame_number, input: input.input });
        }
        taken += 1;
    }
    assert(arrived@.take(taken as int) =~= arrived@);
    inputs
}

/// Notes in the scheduler each peer of `left` that belongs to the session as
/// gone. Says whether one of them was still there.
pub fn depart<S: Simulation>(
    scheduler: &mut RollbackScheduler<S>,
    peers: &PeerChannelSet,
    left: &Vec<u64>,
) -> (gone: bool)
    requires
        old(scheduler).wf(),
        peers.wf(),
    ensures
        final(scheduler).wf(),
        final(scheduler)@ == departed(old(scheduler)@, peers@, peers.local() as int, left@),
        final(scheduler).origin() == old(scheduler).origin(),
        final(scheduler).live() == old(scheduler).live(),
        gone == any_departed(old(scheduler)@, peers@, peers.local() as int, left@),
{
    let mut gone = false;
    let mut taken: usize = 0;
    while taken < left.len()
        invariant
            taken <= left@.len(),
            peers.wf(),
            scheduler.wf(),
            scheduler@ == departed(
                old(scheduler)@,
                peers@,
                peers.local() as int,
                left@.take(taken as int),
            ),
            scheduler.origin() == old(scheduler).origin(),
            scheduler.live() == old(scheduler).live(),
            gone == any_departed(
                old(scheduler)@,
                peers@,
                peers.local() as int,
                left@.take(taken as int),
            ),
        decreases left@.len() - taken,
    {
        proof {
            assert(left@.take(taken + 1).drop_last() =~= left@.take(taken as int));
        }
        if let Some(slot) = peers.slot_of(left[taken]) {
            if scheduler.disconnect(slot) {
                gone = true;
            }
        }
        taken += 1;
    }
    assert(left@.take(taken as int) =~= left@);
    gone
}

/// The manager of one match. It owns the stage, the configuration, the peers
/// and, once it is built, the session.
pub struct SessionManager<S: Simulation> {
    config: SessionConfig,
    stage: SessionStage,
    peers: PeerChannelSet,
    failures: u32,
    cooldown: u32,
    simulation: Option<S>,
    session: Option<RollbackScheduler<S>>,
}

impl<S: Simulation> SessionManager<S> {
    /// The stage that the match is in.
    pub closed spec fn stage(&self) -> SessionStage {
        self.stage
    }

    /// The configuration of the match.
    pub closed spec fn config(&self) -> SessionConfig {
        self.config
    }

    /// The remote peers, in the order of their arrival.
    pub closed spec fn peers(&self) -> Seq<u64> {
        self.peers@
    }

    /// The place of the local player in the transport's list of players, as
    /// it was last told; once the session is built, the slot of the local
    /// player.
    pub closed spec fn local_slot(&self) -> usize {
        self.peers.local()
    }

    /// The number of attempts to reach the signaling service that have failed
    /// in a row, counted up to `MAX_FAILURES`.
    pub closed spec fn failures(&self) -> u32 {
        self.failures
    }

    /// The number of ticks to let pass before the next attempt.
    pub closed spec fn cooldown(&self) -> u32 {
        self.cooldown
    }

    /// The scheduler of the session, once it is built.
    pub closed spec fn scheduler(&self) -> Option<RollbackScheduler<S>> {
        self.session
    }

    /// The simulation that waits for the session to be built.
    pub closed spec fn waiting(&self) -> Option<S> {
        self.simulation
    }

    /// Whether the session is built.
    pub open spec fn built(&self) -> bool {
        self.stage() == SessionStage::SessionActive || self.stage()
            == SessionStage::GameplayRunning
    }

    /// The invariant of the manager. Until the session is built the
    /// simulation waits in its starting state; from then on there is a
    /// scheduler with one slot for the local player and one for each peer.
    pub open spec fn wf(&self) -> bool {
        &&& self.peers().no_duplicates()
        &&& self.failures() <= MAX_FAILURES
        &&& !self.built() ==> self.waiting() is Some && self.scheduler() is None
        &&& self.built() ==> {
            &&& self.waiting() is None
            &&& self.scheduler() is Some
            &&& self.scheduler()->0.wf()
            &&& self.scheduler()->0@.local == self.local_slot()
            &&& self.local_slot() <= self.peers().len()
            &&& self.scheduler()->0@.players() == self.peers().len() + 1
            &&& self.config().valid()
            &&& self.config().num_players == self.peers().len() + 1
        }
    }

    /// A manager for a match with the given configuration, around a
    /// simulation in its starting state. Nothing is connected yet.
    pub fn new(config: SessionConfig, simulation: S) -> (manager: Self)
        ensures
            manager.wf(),
            manager.stage() == SessionStage::Idle,
            manager.config() == config,
            manager.peers() == Seq::<u64>::empty(),
            manager.local_slot() == 0,
            manager.failures() == 0,
            manager.cooldown() == 0,
            manager.waiting() is Some && manager.waiting()->0@ == simulation@,
            manager.scheduler() is None,
    {
        SessionManager {
            config,
            stage: SessionStage::Idle,
            peers: PeerChannelSet::new(),
            failures: 0,
            cooldown: 0,
            simulation: Some(simulation),
            session: None,
        }
    }

    /// The stage that the match is in.
    pub fn current_stage(&self) -> (stage: SessionStage)
        ensures
            stage == self.stage(),
    {
        self.stage
    }

    /// The configuration of the match.
    pub fn configuration(&self) -> (config: SessionConfig)
        ensures
            config == self.config(),
    {
        self.config
    }

    /// The number of remote peers that have joined.
    pub fn peer_count(&self) -> (count: usize)
        ensures
            count == self.peers().len(),
    {
        self.peers.peer_count()
    }

    /// The slot table of the session, once it is built: slot `i` is that of
    /// the `i`-th player of the transport's list.
    pub fn player_slots(&self) -> (slots: Option<Vec<PlayerSlot>>)
        requires
            self.wf(),
        ensures
            slots is Some <==> self.built(),
            slots is Some ==> slots->0@ == seating(self.peers(), self.local_slot() as int),
    {
        match self.stage {
            SessionStage::SessionActive | SessionStage::GameplayRunning => Some(
                self.peers.seats(),
            ),
            _ => None,
        }
    }

    /// The slots that are played on this machine, once the session is built.
    pub fn local_handles(&self) -> (handles: Option<Vec<usize>>)
        ensures
            handles is Some <==> self.built(),
            handles is Some ==> handles->0@ == seq![self.local_slot()],
    {
        match self.stage {
            SessionStage::SessionActive | SessionStage::GameplayRunning => Some(
                self.peers.local_slots(),
            ),
            _ => None,
        }
    }

    /// The scheduler of the session, once it is built.
    pub fn session(&self) -> (session: Option<&RollbackScheduler<S>>)
        ensures
            session is Some <==> self.scheduler() is Some,
            session is Some ==> *session->0 == self.scheduler()->0,
    {
        self.session.as_ref()
    }

    /// What a step does that is called out of its stage: nothing changes, and
    /// the report asks for nothing.
    pub open spec fn no_step(before: Self, after: Self, report: TickReport) -> bool {
        after == before && report == (TickReport { directive: Directive::Wait, absorbed: None })
    }

    /// What a tick does while nothing is connected. Once the signaling
    /// connection is open the match goes on to look for peers. While it is
    /// not, the manager either lets a tick of the wait pass, or, when the wait
    /// is over, asks for an attempt and sets the wait before the next one.
    pub open spec fn socket_step(
        before: Self,
        signaling_open: bool,
        after: Self,
        report: TickReport,
    ) -> bool {
        &&& after.config() == before.config()
        &&& after.peers() == before.peers()
        &&& after.local_slot() == before.local_slot()
        &&& after.waiting() == before.waiting()
        &&& after.scheduler() == before.scheduler()
        &&& if signaling_open {
            &&& after.stage() == SessionStage::SocketConnecting
            &&& after.failures() == 0
            &&& after.cooldown() == 0
            &&& report == (TickReport { directive: Directive::Poll, absorbed: None })
        } else if before.cooldown() > 0 {
            &&& after.stage() == SessionStage::Idle
            &&& after.failures() == before.failures()
            &&& after.cooldown() == before.cooldown() - 1
            &&& report == (TickReport {
                directive: Directive::Wait,
                absorbed: Some(SessionError::SignalingUnavailable),
            })
        } else {
            &&& after.stage() == SessionStage::Idle
            &&& after.failures() == if before.failures() < MAX_FAILURES {
                (before.failures() + 1) as u32
            } else {
                MAX_FAILURES
            }
            &&& after.cooldown() == backoff(after.failures())
            &&& report == (TickReport {
                directive: Directive::Connect,
                absorbed: Some(SessionError::SignalingUnavailable),
            })
        }
    }

    /// Opens the way to the peers. While the signaling connection is not
    /// open, an attempt is asked for, and after each that fails the wait
    /// before the next grows, up to a limit. Once the connection is open the
    /// match goes on to look for peers.
    ///
    /// At any other stage than the first this opens nothing and changes
    /// nothing.
    pub fn setup_socket(&mut self, signaling_open: bool) -> (report: TickReport)
        requires
            old(self).wf(),
        ensures
            final(self).wf(),
            old(self).stage() == SessionStage::Idle ==> Self::socket_step(
                *old(self),
                signaling_open,
                *final(self),
                report,
            ),
            old(self).stage() != SessionStage::Idle ==> Self::no_step(
                *old(self),
                *final(self),
                report,
            ),
    {
        if self.stage != SessionStage::Idle {
            return TickReport { directive: Directive::Wait, absorbed: None };
        }
        if signaling_open {
            self.stage = SessionStage::SocketConnecting;
            self.failures = 0;
            self.cooldown = 0;
            TickReport { directive: Directive::Poll, absorbed: None }
        } else if self.cooldown > 0 {
            self.cooldown -= 1;
            TickReport {
                directive: Directive::Wait,
                absorbed: Some(SessionError::SignalingUnavailable),
            }
        } else {
            if self.failures < MAX_FAILURES {
                self.failures += 1;
            }
            self.cooldown = backoff_ticks(self.failures);
            TickReport {
                directive: Directive::Connect,
                absorbed: Some(SessionError::SignalingUnavailable),
            }
        }
    }

    /// What a tick does while peers are looked for: those that have joined
    /// are taken in, those that have gone are forgotten, and once as many
    /// remote peers are there as the match needs, the match goes on.
    pub open spec fn lobby_step(
        before: Self,
        joined: Seq<u64>,
        left: Seq<u64>,
        local_slot: usize,
        after: Self,
        report: TickReport,
    ) -> bool {
        &&& after.config() == before.config()
        &&& after.waiting() == before.waiting()
        &&& after.scheduler() == before.scheduler()
        &&& after.failures() == before.failures()
        &&& after.cooldown() == before.cooldown()
        &&& after.peers() == lobby(before.peers(), joined, left)
        &&& after.local_slot() == local_slot
        &&& after.stage() == if after.peers().len() >= before.config().quorum() {
            SessionStage::AwaitingPeers
        } else {
            SessionStage::SocketConnecting
        }
        &&& report.directive == Directive::Poll
        &&& report.absorbed == if after.peers().len() >= before.config().quorum() {
            None
        } else {
            Some(SessionError::QuorumNotYetReached)
        }
    }

    /// Takes in the peers that have joined and gone and the place of the
    /// local player, and goes on to build the session once as many remote
    /// peers are there as the match needs. At any other stage than that of
    /// looking for peers this changes nothing.
    pub fn wait_for_players(
        &mut self,
        joined: &Vec<u64>,
        left: &Vec<u64>,
        local_slot: usize,
    ) -> (report: TickReport)
        requires
            old(self).wf(),
        ensures
            final(self).wf(),
            old(self).stage() == SessionStage::SocketConnecting ==> Self::lobby_step(
                *old(self),
                joined@,
                left@,
                local_slot,
                *final(self),
                report,
            ),
            old(self).stage() != SessionStage::SocketConnecting ==> Self::no_step(
                *old(self),
                *final(self),
                report,
            ),
    {
        if self.stage != SessionStage::SocketConnecting {
            return TickReport { directive: Directive::Wait, absorbed: None };
        }
        self.peers.seat_local(local_slot);
        self.peers.poll_new_connections(joined);
        self.peers.forget_all(left);
        if self.config.num_players == 0 || self.peers.peer_count() >= self.config.num_players
            - 1 {
            self.stage = SessionStage::AwaitingPeers;
            TickReport { directive: Directive::Poll, absorbed: None }
        } else {
            TickReport {
                directive: Directive::Poll,
                absorbed: Some(SessionError::QuorumNotYetReached),
            }
        }
    }

    /// What a tick does while the session waits to be built. The peers that
    /// have joined and gone are taken in first. With fewer remote peers than
    /// the match needs, the match waits. With just as many, and a
    /// configuration that a session can be run with, the session is built
    /// around the simulation that waited. Otherwise it cannot be built.
    pub open spec fn build_step(
        before: Self,
        joined: Seq<u64>,
        left: Seq<u64>,
        local_slot: usize,
        after: Self,
        outcome: Result<TickReport, SessionError>,
    ) -> bool {
        &&& after.config() == before.config()
        &&& after.failures() == before.failures()
        &&& after.cooldown() == before.cooldown()
        &&& after.peers() == lobby(before.peers(), joined, left)
        &&& after.local_slot() == local_slot
        &&& if after.peers().len() < before.config().quorum() {
            &&& outcome == Ok::<TickReport, SessionError>(
                TickReport {
                    directive: Directive::Poll,
                    absorbed: Some(SessionError::QuorumNotYetReached),
                },
            )
            &&& after.stage() == SessionStage::AwaitingPeers
            &&& after.waiting() == before.waiting()
            &&& after.scheduler() == before.scheduler()
        } else if before.config().valid() && after.peers().len() == before.config().quorum()
            && local_slot < before.config().num_players {
            &&& outcome == Ok::<TickReport, SessionError>(
                TickReport { directive: Directive::Built, absorbed: None },
            )
            &&& after.stage() == SessionStage::SessionActive
            &&& after.scheduler() is Some
            &&& after.scheduler()->0@ == crate::scheduler::initial_model(
                before.config().num_players as nat,
                local_slot as int,
                before.config().prediction_window as nat,
                before.config().input_delay as nat,
            )
            &&& after.scheduler()->0.origin() == before.waiting()->0@
            &&& after.scheduler()->0.live() == before.waiting()->0@
        } else {
            &&& outcome == Err::<TickReport, SessionError>(SessionError::InvalidConfiguration)
            &&& after.stage() == SessionStage::AwaitingPeers
            &&& after.waiting() == before.waiting()
            &&& after.scheduler() == before.scheduler()
        }
    }

    /// Builds the session, once just as many remote peers are there as the
    /// match needs: the local player gets the slot of its place in the
    /// transport's list of players, and the peers get the other slots in the
    /// order of their arrival. While fewer are there the
    /// match waits. With more, or with a configuration that no session can be
    /// run with, or a place of the local player beyond the last slot, the
    /// session cannot be built, and nothing changes but the peers.
    ///
    /// At any other stage than that of waiting to be built this changes
    /// nothing.
    pub fn setup_session(
        &mut self,
        joined: &Vec<u64>,
        left: &Vec<u64>,
        local_slot: usize,
    ) -> (outcome: Result<TickReport, SessionError>)
        requires
            old(self).wf(),
        ensures
            final(self).wf(),
            old(self).stage() == SessionStage::AwaitingPeers ==> Self::build_step(
                *old(self),
                joined@,
                left@,
                local_slot,
                *final(self),
                outcome,
            ),
            old(self).stage() != SessionStage::AwaitingPeers ==> outcome is Ok && Self::no_step(
                *old(self),
                *final(self),
                outcome->Ok_0,
            ),
    {
        if self.stage != SessionStage::AwaitingPeers {
            return Ok(TickReport { directive: Directive::Wait, absorbed: None });
        }
        self.peers.seat_local(local_slot);
        self.peers.poll_new_connections(joined);
        self.peers.forget_all(left);
        let count: usize = self.peers.peer_count();
        if self.config.num_players >= 1 && count < self.config.num_players - 1 {
            return Ok(
                TickReport {
                    directive: Directive::Poll,
                    absorbed: Some(SessionError::QuorumNotYetReached),
                },
            );
        }
        if !self.config.is_valid() || count != self.config.num_players - 1 || local_slot
            >= self.config.num_players {
            return Err(SessionError::InvalidConfiguration);
        }
        let simulation = self.simulation.take().unwrap();
        match RollbackScheduler::new(&self.config, local_slot, simulation) {
            Ok(scheduler) => {
                self.session = Some(scheduler);
                self.stage = SessionStage::SessionActive;
                Ok(TickReport { directive: Directive::Built, absorbed: None })
            },
            Err(error) => {
                proof {
                    assert(false);
                }
                Err(error)
            },
        }
    }

    /// What the tick after the building of the session does: gameplay
    /// starts, and nothing else changes.
    pub open spec fn start_step(before: Self, after: Self, report: TickReport) -> bool {
        &&& after.stage() == SessionStage::GameplayRunning
        &&& after.config() == before.config()
        &&& after.peers() == before.peers()
        &&& after.local_slot() == before.local_slot()
        &&& after.scheduler() == before.scheduler()
        &&& after.waiting() == before.waiting()
        &&& after.failures() == before.failures()
        &&& after.cooldown() == before.cooldown()
        &&& report == (TickReport { directive: Directive::Started, absorbed: None })
    }

    /// Starts gameplay, now that the session is built. At any other stage,
    /// that of running gameplay too, this changes nothing.
    pub fn setup_gameplay_players(&mut self) -> (report: TickReport)
        requires
            old(self).wf(),
        ensures
            final(self).wf(),
            old(self).stage() == SessionStage::SessionActive ==> Self::start_step(
                *old(self),
                *final(self),
                report,
            ),
            old(self).stage() != SessionStage::SessionActive ==> Self::no_step(
                *old(self),
                *final(self),
                report,
            ),
    {
        if self.stage != SessionStage::SessionActive {
            return TickReport { directive: Directive::Wait, absorbed: None };
        }
        self.stage = SessionStage::GameplayRunning;
        TickReport { directive: Directive::Started, absorbed: None }
    }

    /// What a tick of gameplay does. The stage stays what it is, and so do
    /// the peers and their slots. The scheduler notes the peers that have
    /// gone, takes in the inputs that have arrived, makes a pending
    /// correction and simulates one more frame unless it has to wait; after
    /// that the simulation is where a plain replay of the best-known inputs
    /// ends.
    pub open spec fn play_step(
        before: Self,
        left: Seq<u64>,
        arrived: Seq<PeerInput>,
        local: u8,
        after: Self,
        report: TickReport,
    ) -> bool {
        &&& after.stage() == SessionStage::GameplayRunning
        &&& after.config() == before.config()
        &&& after.peers() == before.peers()
        &&& after.local_slot() == before.local_slot()
        &&& after.waiting() == before.waiting()
        &&& after.failures() == before.failures()
        &&& after.cooldown() == before.cooldown()
        &&& after.scheduler() is Some
        &&& after.scheduler()->0@ == played(
            before.scheduler()->0@,
            before.peers(),
            before.local_slot() as int,
            left,
            arrived,
            local,
        )
        &&& report.directive == Directive::Ticked(
            played_outcome(
                before.scheduler()->0@,
                before.peers(),
                before.local_slot() as int,
                left,
                arrived,
                local,
            ),
        )
        &&& report.absorbed == if any_departed(
            before.scheduler()->0@,
            before.peers(),
            before.local_slot() as int,
            left,
        ) {
            Some(SessionError::PeerDisconnected)
        } else {
            None
        }
        &&& after.scheduler()->0.origin() == before.scheduler()->0.origin()
        &&& after.scheduler()->0.live() == replay::<S>(
            after.scheduler()->0.origin(),
            after.scheduler()->0@.timeline(),
        )
    }

    /// Runs one tick of gameplay: the peers that have gone are noted, the
    /// inputs that have arrived are taken in, and the scheduler makes a
    /// pending correction and simulates one more frame, unless it has to
    /// wait. A peer that goes takes nothing from the session but its input.
    /// At any other stage than that of running gameplay this changes
    /// nothing.
    pub fn play(&mut self, input: &TickInput) -> (report: TickReport)
        requires
            old(self).wf(),
        ensures
            final(self).wf(),
            old(self).stage() == SessionStage::GameplayRunning ==> Self::play_step(
                *old(self),
                input.left@,
                input.arrived@,
                input.local_input.inp,
                *final(self),
                report,
            ),
            old(self).stage() != SessionStage::GameplayRunning ==> Self::no_step(
                *old(self),
                *final(self),
                report,
            ),
    {
        if self.stage != SessionStage::GameplayRunning {
            return TickReport { directive: Directive::Wait, absorbed: None };
        }
        let ghost before = self.scheduler()->0@;
        let ghost local = self.local_slot() as int;
        let arrived = address(&self.peers, &input.arrived);
        match &mut self.session {
            Some(scheduler) => {
                let gone = depart(scheduler, &self.peers, &input.left);
                proof {
                    Self::lemma_departed_keeps(before, self.peers@, local, input.left@);
                }
                let outcome = scheduler.tick(input.local_input, &arrived);
                proof {
                    Self::lemma_ticked_keeps(
                        departed(before, self.peers@, local, input.left@),
                        arrived@,
                        input.local_input.inp,
                    );
                }
                TickReport {
                    directive: Directive::Ticked(outcome),
                    absorbed: if gone {
                        Some(SessionError::PeerDisconnected)
                    } else {
                        None
                    },
                }
            },
            None => TickReport { directive: Directive::Wait, absorbed: None },
        }
    }

    /// Peers that go leave the slots, the local player and the frame count as
    /// they are.
    proof fn lemma_departed_keeps(
        model: SchedulerModel,
        peers: Seq<u64>,
        local: int,
        left: Seq<u64>,
    )
        ensures
            departed(model, peers, local, left).players() == model.players(),
            departed(model, peers, local, left).local == model.local,
            departed(model, peers, local, left).frame == model.frame,
            departed(model, peers, local, left).delay == model.delay,
        decreases left.len(),
    {
        if left.len() > 0 {
            Self::lemma_departed_keeps(model, peers, local, left.drop_last());
        }
    }

    /// Inputs that arrive, and a tick, leave the slots and the local player
    /// as they are.
    proof fn lemma_ticked_keeps(model: SchedulerModel, arrived: Seq<RemoteInput>, local: u8)
        requires
            0 <= model.local < model.queues.len(),
        ensures
            received_all(model, arrived).players() == model.players(),
            received_all(model, arrived).local == model.local,
            received_all(model, arrived).frame == model.frame,
            received_all(model, arrived).delay == model.delay,
            received_all(model, arrived).ticked(local).players() == model.players(),
            received_all(model, arrived).ticked(local).local == model.local,
        decreases arrived.len(),
    {
        if arrived.len() > 0 {
            Self::lemma_ticked_keeps(model, arrived.drop_last(), local);
        }
    }

    /// One tick of the match. What it does goes by the stage: see
    /// `socket_step`, `lobby_step`, `build_step`, `start_step` and
    /// `play_step`. A tick of gameplay leaves the stage what it is. The only
    /// error is `InvalidConfiguration`, and only the building of the session
    /// gives it.
    pub fn advance(&mut self, input: &TickInput) -> (outcome: Result<TickReport, SessionError>)
        requires
            old(self).wf(),
        ensures
            final(self).wf(),
            match old(self).stage() {
                SessionStage::Idle => outcome is Ok && Self::socket_step(
                    *old(self),
                    input.signaling_open,
                    *final(self),
                    outcome->Ok_0,
                ),
                SessionStage::SocketConnecting => outcome is Ok && Self::lobby_step(
                    *old(self),
                    input.joined@,
                    input.left@,
                    input.local_slot,
                    *final(self),
                    outcome->Ok_0,
                ),
                SessionStage::AwaitingPeers => Self::build_step(
                    *old(self),
                    input.joined@,
                    input.left@,
                    input.local_slot,
                    *final(self),
                    outcome,
                ),
                SessionStage::SessionActive => outcome is Ok && Self::start_step(
                    *old(self),
                    *final(self),
                    outcome->Ok_0,
                ),
                SessionStage::GameplayRunning => outcome is Ok && Self::play_step(
                    *old(self),
                    input.left@,
                    input.arrived@,
                    input.local_input.inp,
                    *final(self),
                    outcome->Ok_0,
                ),
            },
            old(self).stage() == SessionStage::GameplayRunning ==> final(self).stage()
                == SessionStage::GameplayRunning,
            outcome is Err ==> outcome->Err_0 == SessionError::InvalidConfiguration
                && old(self).stage() == SessionStage::AwaitingPeers,
    {
        match self.stage {
            SessionStage::Idle => Ok(self.setup_socket(input.signaling_open)),
            SessionStage::SocketConnecting => Ok(
                self.wait_for_players(&input.joined, &input.left, input.local_slot),
            ),
            SessionStage::AwaitingPeers => self.setup_session(
                &input.joined,
                &input.left,
                input.local_slot,
            ),
            SessionStage::SessionActive => Ok(self.setup_gameplay_players()),
            SessionStage::GameplayRunning => Ok(self.play(input)),
        }
    }

    /// Tears the session down: the peers, the slots and the snapshots are
    /// dropped, and the match is back where nothing is connected, ready to be
    /// set up anew around `simulation`.
    pub fn reset(&mut self, simulation: S)
        ensures
            final(self).wf(),
            final(self).stage() == SessionStage::Idle,
            final(self).config() == old(self).config(),
            final(self).peers() == Seq::<u64>::empty(),
            final(self).local_slot() == 0,
            final(self).failures() == 0,
            final(self).cooldown() == 0,
            final(self).waiting() is Some && final(self).waiting()->0@ == simulation@,
            final(self).scheduler() is None,
    {
        self.stage = SessionStage::Idle;
        self.peers = PeerChannelSet::new();
        self.failures = 0;
        self.cooldown = 0;
        self.simulation = Some(simulation);
        self.session = None;
    }
}

impl SessionManager<Arena> {
    /// A manager for a match in the arena: one player for each handle of the
    /// configured number of players waits for the session to be built.
    pub fn for_arena(config: SessionConfig) -> (manager: Self)
        ensures
            manager.wf(),
            manager.stage() == SessionStage::Idle,
            manager.config() == config,
            manager.peers() == Seq::<u64>::empty(),
            manager.local_slot() == 0,
            manager.failures() == 0,
            manager.cooldown() == 0,
            manager.waiting() is Some && manager.waiting()->0@ == lined_up(
                config.num_players as nat,
            ),
            manager.scheduler() is None,
    {
        SessionManager::new(config, Arena::new(config.num_players))
    }
}

} // verus!
