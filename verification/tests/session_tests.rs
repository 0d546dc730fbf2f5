use dota_smash::arena::{Arena, Player};
use dota_smash::config::SessionConfig;
use dota_smash::error::SessionError;
use dota_smash::input::{BoxInput, InputFrame, InputStatus, INPUT_LEFT, INPUT_RIGHT, INPUT_UP};
use dota_smash::peers::{PlayerSlot, SlotKind};
use dota_smash::scheduler::TickOutcome;
use dota_smash::session::{
    backoff_ticks, Directive, PeerInput, SessionManager, SessionStage, TickInput, TickReport,
};

fn manager(num_players: usize) -> SessionManager<Arena> {
    let config = SessionConfig { num_players, prediction_window: 12, tick_rate: 60, input_delay: 2 };
    SessionManager::new(config, Arena::new(num_players))
}

fn advance(
    manager: &mut SessionManager<Arena>,
    input: &TickInput,
) -> Result<Directive, SessionError> {
    manager.advance(input).map(|report| report.directive)
}

fn closed() -> TickInput {
    TickInput {
        signaling_open: false,
        joined: vec![],
        left: vec![],
        local_slot: 0,
        local_input: BoxInput { inp: 0 },
        arrived: vec![],
    }
}

fn open() -> TickInput {
    TickInput { signaling_open: true, ..closed() }
}

fn joining(peers: Vec<u64>) -> TickInput {
    TickInput { joined: peers, ..open() }
}

fn leaving(peers: Vec<u64>) -> TickInput {
    TickInput { left: peers, ..open() }
}

fn playing(local: u8, arrived: Vec<PeerInput>) -> TickInput {
    TickInput { local_input: BoxInput { inp: local }, arrived, ..open() }
}

fn running(num_players: usize, peers: Vec<u64>) -> SessionManager<Arena> {
    let mut manager = manager(num_players);
    assert_eq!(advance(&mut manager, &open()), Ok(Directive::Poll));
    assert_eq!(advance(&mut manager, &joining(peers)), Ok(Directive::Poll));
    assert_eq!(advance(&mut manager, &open()), Ok(Directive::Built));
    assert_eq!(advance(&mut manager, &open()), Ok(Directive::Started));
    assert_eq!(manager.current_stage(), SessionStage::GameplayRunning);
    manager
}

fn ticked(frame: u32, tagged: u32, bitmask: u8) -> Result<Directive, SessionError> {
    Ok(Directive::Ticked(TickOutcome::Advanced {
        frame,
        sent: InputFrame { frame_number: tagged, bitmask, confirmation: InputStatus::Confirmed },
    }))
}

#[test]
fn a_new_manager_is_idle() {
    let manager = manager(2);
    assert_eq!(manager.current_stage(), SessionStage::Idle);
    assert_eq!(manager.peer_count(), 0);
    assert_eq!(manager.configuration(), SessionConfig::default());
    assert!(manager.session().is_none());
    assert_eq!(manager.player_slots(), None);
}

#[test]
fn the_stages_follow_one_another() {
    let mut manager = manager(2);
    assert_eq!(advance(&mut manager, &open()), Ok(Directive::Poll));
    assert_eq!(manager.current_stage(), SessionStage::SocketConnecting);
    assert_eq!(advance(&mut manager, &joining(vec![77])), Ok(Directive::Poll));
    assert_eq!(manager.current_stage(), SessionStage::AwaitingPeers);
    assert!(manager.session().is_none());
    assert_eq!(advance(&mut manager, &open()), Ok(Directive::Built));
    assert_eq!(manager.current_stage(), SessionStage::SessionActive);
    assert_eq!(manager.session().map(|session| session.frame_count().frame), Some(0));
    assert_eq!(advance(&mut manager, &open()), Ok(Directive::Started));
    assert_eq!(manager.current_stage(), SessionStage::GameplayRunning);
    assert_eq!(manager.session().map(|session| session.frame_count().frame), Some(0));
    assert_eq!(advance(&mut manager, &open()), ticked(1, 3, 0));
    assert_eq!(manager.current_stage(), SessionStage::GameplayRunning);
}

#[test]
fn the_slots_go_by_the_order_of_arrival() {
    let manager = running(3, vec![50, 20]);
    assert_eq!(
        manager.player_slots(),
        Some(vec![
            PlayerSlot { index: 0, kind: SlotKind::Local, channel: None },
            PlayerSlot { index: 1, kind: SlotKind::Remote, channel: Some(50) },
            PlayerSlot { index: 2, kind: SlotKind::Remote, channel: Some(20) },
        ])
    );
    let session = manager.session().unwrap();
    assert_eq!(session.num_players(), 3);
    assert_eq!(session.local_slot(), 0);
    assert_eq!(session.prediction_window(), 12);
    assert_eq!(session.input_delay(), 2);
}

#[test]
fn without_signaling_the_manager_stays_idle_and_tries_again() {
    let mut manager = manager(2);
    for _ in 0..50 {
        let directive = advance(&mut manager, &closed());
        assert!(directive == Ok(Directive::Connect) || directive == Ok(Directive::Wait));
        assert_eq!(manager.current_stage(), SessionStage::Idle);
    }
    assert_eq!(advance(&mut manager, &open()), Ok(Directive::Poll));
    assert_eq!(manager.current_stage(), SessionStage::SocketConnecting);
}

#[test]
fn the_wait_between_attempts_doubles_up_to_a_cap() {
    let waits: Vec<u32> = (0..10).map(backoff_ticks).collect();
    assert_eq!(waits, vec![0, 0, 1, 3, 7, 15, 31, 63, 63, 63]);
    assert_eq!(backoff_ticks(u32::MAX), 63);

    let mut manager = manager(2);
    let mut script = vec![];
    for _ in 0..16 {
        script.push(advance(&mut manager, &closed()).ok().unwrap());
    }
    let (connect, wait) = (Directive::Connect, Directive::Wait);
    assert_eq!(
        script,
        vec![
            connect, connect, wait, connect, wait, wait, wait, connect, wait, wait, wait, wait,
            wait, wait, wait, connect
        ]
    );
}

#[test]
fn with_too_few_peers_the_manager_keeps_looking() {
    let mut manager = manager(3);
    advance(&mut manager, &open());
    for _ in 0..20 {
        assert_eq!(advance(&mut manager, &joining(vec![5])), Ok(Directive::Poll));
        assert_eq!(manager.current_stage(), SessionStage::SocketConnecting);
    }
    assert_eq!(manager.peer_count(), 1);
    assert!(manager.session().is_none());
    assert_eq!(advance(&mut manager, &joining(vec![6])), Ok(Directive::Poll));
    assert_eq!(manager.current_stage(), SessionStage::AwaitingPeers);
}

#[test]
fn without_quorum_the_manager_waits_for_peers_and_nothing_is_simulated() {
    let mut manager = manager(2);
    advance(&mut manager, &open());
    advance(&mut manager, &joining(vec![5]));
    assert_eq!(manager.current_stage(), SessionStage::AwaitingPeers);
    // The peer is gone again before the session is built: only the local
    // player is left.
    assert_eq!(advance(&mut manager, &leaving(vec![5])), Ok(Directive::Poll));
    for _ in 0..100 {
        assert_eq!(advance(&mut manager, &playing(INPUT_UP, vec![])), Ok(Directive::Poll));
        assert_eq!(manager.current_stage(), SessionStage::AwaitingPeers);
        assert!(manager.session().is_none());
        assert_eq!(manager.player_slots(), None);
    }
    assert_eq!(manager.peer_count(), 0);
    // Once a peer is there the session is built.
    assert_eq!(advance(&mut manager, &joining(vec![6])), Ok(Directive::Built));
    assert_eq!(manager.session().map(|session| session.frame_count().frame), Some(0));
}

#[test]
fn with_too_many_peers_the_session_cannot_be_built() {
    let mut manager = manager(2);
    advance(&mut manager, &open());
    assert_eq!(advance(&mut manager, &joining(vec![5, 6])), Ok(Directive::Poll));
    assert_eq!(manager.current_stage(), SessionStage::AwaitingPeers);
    for _ in 0..3 {
        assert_eq!(advance(&mut manager, &open()), Err(SessionError::InvalidConfiguration));
        assert_eq!(manager.current_stage(), SessionStage::AwaitingPeers);
        assert!(manager.session().is_none());
    }
    // With one of them gone the session can be built.
    assert_eq!(advance(&mut manager, &leaving(vec![5])), Ok(Directive::Built));
    assert_eq!(
        manager.player_slots(),
        Some(vec![
            PlayerSlot { index: 0, kind: SlotKind::Local, channel: None },
            PlayerSlot { index: 1, kind: SlotKind::Remote, channel: Some(6) },
        ])
    );
}

#[test]
fn with_an_unsound_configuration_the_session_cannot_be_built() {
    let config = SessionConfig { num_players: 2, prediction_window: 12, tick_rate: 0, input_delay: 2 };
    let mut manager = SessionManager::new(config, Arena::new(2));
    advance(&mut manager, &open());
    advance(&mut manager, &joining(vec![5]));
    assert_eq!(advance(&mut manager, &open()), Err(SessionError::InvalidConfiguration));
    assert_eq!(manager.current_stage(), SessionStage::AwaitingPeers);

    let nobody = SessionConfig { num_players: 0, ..config };
    let mut manager = SessionManager::new(nobody, Arena::new(0));
    advance(&mut manager, &open());
    assert_eq!(advance(&mut manager, &open()), Ok(Directive::Poll));
    assert_eq!(manager.current_stage(), SessionStage::AwaitingPeers);
    assert_eq!(advance(&mut manager, &open()), Err(SessionError::InvalidConfiguration));
}

#[test]
fn a_tick_of_gameplay_leaves_the_stage_alone() {
    let mut manager = running(2, vec![9]);
    for frame in 1..=14 {
        assert_eq!(advance(&mut manager, &playing(0, vec![])), ticked(frame, frame + 2, 0));
        assert_eq!(manager.current_stage(), SessionStage::GameplayRunning);
    }
    // Nothing has arrived: the two frames of delay and the twelve of the
    // prediction window are used up.
    assert_eq!(advance(&mut manager, &open()), Ok(Directive::Ticked(TickOutcome::Stalled)));
    assert_eq!(manager.current_stage(), SessionStage::GameplayRunning);
    assert_eq!(manager.session().map(|session| session.frame_count().frame), Some(14));
}

#[test]
fn new_peers_do_not_change_a_running_session() {
    let mut manager = running(2, vec![9]);
    assert_eq!(advance(&mut manager, &joining(vec![10, 11])), ticked(1, 3, 0));
    assert_eq!(manager.peer_count(), 1);
    assert_eq!(manager.session().map(|session| session.num_players()), Some(2));
}

#[test]
fn inputs_reach_the_slot_of_their_peer() {
    let mut manager = running(3, vec![50, 20]);
    let arrived = vec![
        PeerInput { peer: 20, frame_number: 3, input: BoxInput { inp: INPUT_LEFT } },
        PeerInput { peer: 99, frame_number: 3, input: BoxInput { inp: INPUT_UP } },
        PeerInput { peer: 50, frame_number: 3, input: BoxInput { inp: INPUT_RIGHT } },
    ];
    assert_eq!(advance(&mut manager, &playing(0, arrived)), ticked(1, 3, 0));
    assert_eq!(advance(&mut manager, &playing(0, vec![])), ticked(2, 4, 0));
    assert_eq!(manager.session().unwrap().simulation().players[1], Player::new(1));
    assert_eq!(advance(&mut manager, &playing(0, vec![])), ticked(3, 5, 0));
    let session = manager.session().unwrap();
    assert_eq!(session.simulation().players[0], Player::new(0));
    assert_eq!(session.simulation().players[1].velocity_x, 400);
    assert_eq!(session.simulation().players[2].velocity_x, -400);
    assert_eq!(session.simulation().players[2].velocity_y, 0);
}

#[test]
fn a_late_input_is_corrected_within_the_tick() {
    let mut manager = running(2, vec![9]);
    for frame in 1..=4 {
        assert_eq!(advance(&mut manager, &playing(0, vec![])), ticked(frame, frame + 2, 0));
    }
    assert_eq!(manager.session().unwrap().simulation().players[1].velocity_y, 0);
    let late = vec![PeerInput { peer: 9, frame_number: 3, input: BoxInput { inp: INPUT_UP } }];
    assert_eq!(advance(&mut manager, &playing(0, late)), ticked(5, 7, 0));
    let session = manager.session().unwrap();
    assert_eq!(session.rollback_target(), None);
    assert_eq!(session.frame_count().frame, 5);
    assert_eq!(session.simulation().players[1].velocity_y, 400);
}

#[test]
fn a_peer_that_leaves_mid_session_does_not_end_it() {
    let mut manager = running(2, vec![9]);
    for frame in 1..=3 {
        let arrived =
            vec![PeerInput { peer: 9, frame_number: frame, input: BoxInput { inp: INPUT_RIGHT } }];
        assert_eq!(advance(&mut manager, &playing(0, arrived)), ticked(frame, frame + 2, 0));
    }
    assert_eq!(advance(&mut manager, &leaving(vec![9])), ticked(4, 6, 0));
    for frame in 5..=40 {
        assert_eq!(advance(&mut manager, &playing(0, vec![])), ticked(frame, frame + 2, 0));
        assert_eq!(manager.current_stage(), SessionStage::GameplayRunning);
    }
    let session = manager.session().unwrap();
    assert_eq!(session.rollback_target(), None);
    for frame in 4..=40 {
        assert_eq!(
            session.input_at(1, frame),
            Some(InputFrame {
                frame_number: frame,
                bitmask: 0,
                confirmation: InputStatus::Disconnected
            })
        );
    }
    assert_eq!(
        session.input_at(1, 3),
        Some(InputFrame {
            frame_number: 3,
            bitmask: INPUT_RIGHT,
            confirmation: InputStatus::Confirmed
        })
    );
    assert_eq!(session.simulation().players[1].velocity_x, 0);
    assert_eq!(manager.peer_count(), 1);
}

#[test]
fn a_reset_makes_room_for_a_fresh_match() {
    let mut manager = running(2, vec![9]);
    advance(&mut manager, &playing(INPUT_UP, vec![]));
    manager.reset(Arena::new(2));
    assert_eq!(manager.current_stage(), SessionStage::Idle);
    assert_eq!(manager.peer_count(), 0);
    assert!(manager.session().is_none());
    assert_eq!(advance(&mut manager, &closed()), Ok(Directive::Connect));
    assert_eq!(advance(&mut manager, &open()), Ok(Directive::Poll));
    assert_eq!(advance(&mut manager, &joining(vec![4])), Ok(Directive::Poll));
    assert_eq!(advance(&mut manager, &open()), Ok(Directive::Built));
    assert_eq!(manager.session().map(|session| session.frame_count().frame), Some(0));
}

#[test]
fn a_tick_reports_the_condition_it_took_in_its_stride() {
    let mut manager = manager(2);
    assert_eq!(
        manager.advance(&closed()),
        Ok(TickReport {
            directive: Directive::Connect,
            absorbed: Some(SessionError::SignalingUnavailable)
        })
    );
    assert_eq!(
        manager.advance(&open()),
        Ok(TickReport { directive: Directive::Poll, absorbed: None })
    );
    assert_eq!(
        manager.advance(&open()),
        Ok(TickReport {
            directive: Directive::Poll,
            absorbed: Some(SessionError::QuorumNotYetReached)
        })
    );
    assert_eq!(
        manager.advance(&joining(vec![3])),
        Ok(TickReport { directive: Directive::Poll, absorbed: None })
    );
    assert_eq!(
        manager.advance(&leaving(vec![3])),
        Ok(TickReport {
            directive: Directive::Poll,
            absorbed: Some(SessionError::QuorumNotYetReached)
        })
    );
    assert_eq!(
        manager.advance(&joining(vec![4])),
        Ok(TickReport { directive: Directive::Built, absorbed: None })
    );
    assert_eq!(
        manager.advance(&open()),
        Ok(TickReport { directive: Directive::Started, absorbed: None })
    );
    assert_eq!(manager.advance(&open()).map(|report| report.absorbed), Ok(None));
    // A peer that is no part of the session goes unnoticed.
    assert_eq!(manager.advance(&leaving(vec![3])).map(|report| report.absorbed), Ok(None));
    assert_eq!(
        manager.advance(&leaving(vec![4])).map(|report| report.absorbed),
        Ok(Some(SessionError::PeerDisconnected))
    );
    // It can go only once.
    assert_eq!(manager.advance(&leaving(vec![4])).map(|report| report.absorbed), Ok(None));
}

fn report(directive: Directive) -> TickReport {
    TickReport { directive, absorbed: None }
}

#[test]
fn each_player_gets_the_slot_of_its_place_in_the_list() {
    // The transport lists the peer 50 first, then the local player, then 20.
    let mut manager = manager(3);
    let listed = TickInput { joined: vec![50, 20], local_slot: 1, ..open() };
    assert_eq!(advance(&mut manager, &open()), Ok(Directive::Poll));
    assert_eq!(advance(&mut manager, &listed), Ok(Directive::Poll));
    assert_eq!(advance(&mut manager, &listed), Ok(Directive::Built));
    assert_eq!(
        manager.player_slots(),
        Some(vec![
            PlayerSlot { index: 0, kind: SlotKind::Remote, channel: Some(50) },
            PlayerSlot { index: 1, kind: SlotKind::Local, channel: None },
            PlayerSlot { index: 2, kind: SlotKind::Remote, channel: Some(20) },
        ])
    );
    assert_eq!(manager.local_handles(), Some(vec![1]));
    assert_eq!(manager.session().map(|session| session.local_slot()), Some(1));
    assert_eq!(advance(&mut manager, &listed), Ok(Directive::Started));

    // The local input drives slot 1, the peers drive slots 0 and 2.
    let arrived = vec![
        PeerInput { peer: 50, frame_number: 3, input: BoxInput { inp: INPUT_RIGHT } },
        PeerInput { peer: 20, frame_number: 3, input: BoxInput { inp: INPUT_LEFT } },
    ];
    let first = TickInput {
        local_input: BoxInput { inp: INPUT_UP },
        arrived,
        local_slot: 1,
        ..open()
    };
    assert_eq!(advance(&mut manager, &first), ticked(1, 3, INPUT_UP));
    assert_eq!(advance(&mut manager, &listed), ticked(2, 4, 0));
    assert_eq!(advance(&mut manager, &listed), ticked(3, 5, 0));
    let session = manager.session().unwrap();
    assert_eq!(session.simulation().players[0].velocity_x, 400);
    assert_eq!(session.simulation().players[1].velocity_y, 400);
    assert_eq!(session.simulation().players[1].velocity_x, 0);
    assert_eq!(session.simulation().players[2].velocity_x, -400);
}

#[test]
fn the_local_player_can_be_listed_last() {
    let mut manager = manager(2);
    let listed = TickInput { joined: vec![9], local_slot: 1, ..open() };
    advance(&mut manager, &open());
    advance(&mut manager, &listed);
    assert_eq!(advance(&mut manager, &listed), Ok(Directive::Built));
    assert_eq!(
        manager.player_slots(),
        Some(vec![
            PlayerSlot { index: 0, kind: SlotKind::Remote, channel: Some(9) },
            PlayerSlot { index: 1, kind: SlotKind::Local, channel: None },
        ])
    );
    assert_eq!(manager.local_handles(), Some(vec![1]));
}

#[test]
fn a_place_beyond_the_last_slot_cannot_be_built() {
    let mut manager = manager(2);
    let listed = TickInput { joined: vec![9], local_slot: 2, ..open() };
    advance(&mut manager, &open());
    advance(&mut manager, &listed);
    assert_eq!(advance(&mut manager, &listed), Err(SessionError::InvalidConfiguration));
    assert_eq!(manager.current_stage(), SessionStage::AwaitingPeers);
    assert_eq!(manager.local_handles(), None);
    let mended = TickInput { local_slot: 0, ..open() };
    assert_eq!(advance(&mut manager, &mended), Ok(Directive::Built));
    assert_eq!(manager.local_handles(), Some(vec![0]));
}

#[test]
fn a_step_out_of_its_stage_changes_nothing() {
    let wait = report(Directive::Wait);
    // Nothing is connected: only the first step does anything.
    let mut manager = manager(2);
    assert_eq!(manager.wait_for_players(&vec![5], &vec![], 0), wait);
    assert_eq!(manager.setup_session(&vec![5], &vec![], 0), Ok(wait));
    assert_eq!(manager.setup_gameplay_players(), wait);
    assert_eq!(manager.play(&playing(INPUT_UP, vec![])), wait);
    assert_eq!(manager.current_stage(), SessionStage::Idle);
    assert_eq!(manager.peer_count(), 0);
    assert!(manager.session().is_none());

    assert_eq!(manager.setup_socket(true), report(Directive::Poll));
    assert_eq!(manager.setup_socket(true), wait);
    assert_eq!(manager.setup_session(&vec![5], &vec![], 0), Ok(wait));
    assert_eq!(manager.current_stage(), SessionStage::SocketConnecting);
    assert_eq!(manager.peer_count(), 0);

    assert_eq!(manager.wait_for_players(&vec![5], &vec![], 0), report(Directive::Poll));
    assert_eq!(manager.current_stage(), SessionStage::AwaitingPeers);
    assert_eq!(manager.wait_for_players(&vec![6], &vec![], 0), wait);
    assert_eq!(manager.setup_gameplay_players(), wait);
    assert_eq!(manager.peer_count(), 1);

    assert_eq!(manager.setup_session(&vec![], &vec![], 0), Ok(report(Directive::Built)));
    assert_eq!(manager.setup_session(&vec![], &vec![5], 0), Ok(wait));
    assert_eq!(manager.play(&playing(INPUT_UP, vec![])), wait);
    assert_eq!(manager.current_stage(), SessionStage::SessionActive);
    assert_eq!(manager.peer_count(), 1);
    assert_eq!(manager.session().map(|session| session.frame_count().frame), Some(0));

    assert_eq!(manager.setup_gameplay_players(), report(Directive::Started));
    // Gameplay runs: the set-up steps leave the stage and the session alone.
    assert_eq!(manager.play(&playing(INPUT_UP, vec![])).directive, ticked(1, 3, INPUT_UP).ok().unwrap());
    assert_eq!(manager.setup_gameplay_players(), wait);
    assert_eq!(manager.setup_gameplay_players(), wait);
    assert_eq!(manager.setup_session(&vec![8], &vec![5], 1), Ok(wait));
    assert_eq!(manager.setup_socket(false), wait);
    assert_eq!(manager.wait_for_players(&vec![8], &vec![5], 1), wait);
    assert_eq!(manager.current_stage(), SessionStage::GameplayRunning);
    assert_eq!(manager.peer_count(), 1);
    assert_eq!(manager.local_handles(), Some(vec![0]));
    let session = manager.session().unwrap();
    assert_eq!(session.frame_count().frame, 1);
    assert_eq!(
        session.input_at(1, 2),
        Some(InputFrame { frame_number: 2, bitmask: 0, confirmation: InputStatus::Confirmed })
    );
}

#[test]
fn a_match_in_the_arena_has_a_player_for_each_handle() {
    let config = SessionConfig { num_players: 3, prediction_window: 12, tick_rate: 60, input_delay: 2 };
    let mut manager = SessionManager::for_arena(config);
    assert_eq!(manager.current_stage(), SessionStage::Idle);
    advance(&mut manager, &open());
    advance(&mut manager, &joining(vec![1, 2]));
    assert_eq!(advance(&mut manager, &open()), Ok(Directive::Built));
    assert_eq!(
        manager.session().unwrap().simulation().players,
        vec![Player::new(0), Player::new(1), Player::new(2)]
    );
}

#[test]
fn smooth_ticks_count_one_frame_each() {
    let mut manager = running(2, vec![9]);
    for frame in 1..=50u32 {
        let arrived =
            vec![PeerInput { peer: 9, frame_number: frame + 2, input: BoxInput { inp: 0 } }];
        assert_eq!(advance(&mut manager, &playing(0, arrived)), ticked(frame, frame + 2, 0));
        let session = manager.session().unwrap();
        assert_eq!(session.frame_count().frame, frame);
        assert_eq!(session.rollback_target(), None);
    }
}
