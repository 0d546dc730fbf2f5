use dota_smash::peers::{PeerChannelSet, PlayerSlot, SlotKind};

#[test]
fn a_new_set_holds_only_the_local_slot() {
    let set = PeerChannelSet::new();
    assert_eq!(set.peer_count(), 0);
    assert_eq!(set.local_slots(), vec![0]);
    assert_eq!(set.remote_slots(), Vec::<usize>::new());
    assert_eq!(
        set.seats(),
        vec![PlayerSlot { index: 0, kind: SlotKind::Local, channel: None }]
    );
}

#[test]
fn peers_get_their_slots_in_the_order_of_arrival() {
    let mut set = PeerChannelSet::new();
    assert_eq!(set.poll_new_connections(&vec![40, 20]), 2);
    assert_eq!(set.poll_new_connections(&vec![30]), 3);
    assert_eq!(set.slot_of(40), Some(1));
    assert_eq!(set.slot_of(20), Some(2));
    assert_eq!(set.slot_of(30), Some(3));
    assert_eq!(set.slot_of(99), None);
    assert_eq!(set.remote_slots(), vec![1, 2, 3]);
    assert_eq!(set.local_slots(), vec![0]);
    assert_eq!(
        set.seats(),
        vec![
            PlayerSlot { index: 0, kind: SlotKind::Local, channel: None },
            PlayerSlot { index: 1, kind: SlotKind::Remote, channel: Some(40) },
            PlayerSlot { index: 2, kind: SlotKind::Remote, channel: Some(20) },
            PlayerSlot { index: 3, kind: SlotKind::Remote, channel: Some(30) },
        ]
    );
}

#[test]
fn polling_is_idempotent() {
    let mut set = PeerChannelSet::new();
    assert_eq!(set.poll_new_connections(&vec![5, 6]), 2);
    assert_eq!(set.poll_new_connections(&vec![5, 6]), 2);
    assert_eq!(set.poll_new_connections(&vec![6, 5, 6]), 2);
    assert_eq!(set.remote_slots(), vec![1, 2]);
    assert_eq!(set.slot_of(5), Some(1));
    assert_eq!(set.slot_of(6), Some(2));
}

#[test]
fn a_peer_named_twice_in_one_poll_joins_once() {
    let mut set = PeerChannelSet::new();
    assert_eq!(set.poll_new_connections(&vec![9, 9, 9]), 1);
    assert!(set.contains(9));
    assert!(!set.contains(8));
}

#[test]
fn an_empty_poll_changes_nothing() {
    let mut set = PeerChannelSet::new();
    set.poll_new_connections(&vec![1]);
    assert_eq!(set.poll_new_connections(&vec![]), 1);
    assert_eq!(set.slot_of(1), Some(1));
}

#[test]
fn quorum_is_one_peer_less_than_the_players() {
    let mut set = PeerChannelSet::new();
    assert!(!set.has_quorum(2));
    assert!(set.has_quorum(1));
    assert!(!set.has_quorum(0));
    set.poll_new_connections(&vec![11]);
    assert!(set.has_quorum(2));
    assert!(!set.has_quorum(3));
    assert!(!set.has_quorum(1));
    set.poll_new_connections(&vec![12]);
    assert!(!set.has_quorum(2));
    assert!(set.has_quorum(3));
}

#[test]
fn a_forgotten_peer_frees_its_place() {
    let mut set = PeerChannelSet::new();
    set.poll_new_connections(&vec![1, 2, 3]);
    assert!(set.forget(2));
    assert!(!set.forget(2));
    assert!(!set.forget(77));
    assert_eq!(set.peer_count(), 2);
    assert_eq!(set.slot_of(1), Some(1));
    assert_eq!(set.slot_of(3), Some(2));
    assert_eq!(set.slot_of(2), None);
    set.forget_all(&vec![3, 9, 1]);
    assert_eq!(set.peer_count(), 0);
}

#[test]
fn the_local_player_takes_the_slot_of_its_place() {
    let mut set = PeerChannelSet::new();
    assert_eq!(set.local_place(), 0);
    set.poll_new_connections(&vec![40, 20, 30]);
    set.seat_local(2);
    assert_eq!(set.local_place(), 2);
    assert_eq!(set.local_slots(), vec![2]);
    assert_eq!(set.remote_slots(), vec![0, 1, 3]);
    assert_eq!(set.slot_of(40), Some(0));
    assert_eq!(set.slot_of(20), Some(1));
    assert_eq!(set.slot_of(30), Some(3));
    assert_eq!(
        set.seats(),
        vec![
            PlayerSlot { index: 0, kind: SlotKind::Remote, channel: Some(40) },
            PlayerSlot { index: 1, kind: SlotKind::Remote, channel: Some(20) },
            PlayerSlot { index: 2, kind: SlotKind::Local, channel: None },
            PlayerSlot { index: 3, kind: SlotKind::Remote, channel: Some(30) },
        ]
    );
    set.seat_local(3);
    assert_eq!(set.remote_slots(), vec![0, 1, 2]);
    assert_eq!(set.seats()[3], PlayerSlot { index: 3, kind: SlotKind::Local, channel: None });
    // Polling and forgetting leave the place alone.
    set.poll_new_connections(&vec![50]);
    set.forget(40);
    assert_eq!(set.local_place(), 3);
    assert_eq!(set.slot_of(20), Some(0));
    assert_eq!(set.slot_of(50), Some(2));
}
