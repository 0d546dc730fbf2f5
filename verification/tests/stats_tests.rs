use dota_smash::stats::{update_networking_stats, NetworkStats, NetworkStatsMonitor};

fn sample(ping: u128) -> NetworkStats {
    NetworkStats { ping, kbps_sent: 12, local_frames_behind: -1, remote_frames_behind: 2 }
}

#[test]
fn a_fresh_sample_replaces_the_old_one() {
    let mut status = sample(40);
    let fresh =
        NetworkStats { ping: 55, kbps_sent: 7, local_frames_behind: 3, remote_frames_behind: -3 };
    update_networking_stats(&mut status, Some(fresh));
    assert_eq!(status, fresh);
}

#[test]
fn a_failed_sample_keeps_the_old_one() {
    let mut status = sample(40);
    update_networking_stats(&mut status, None);
    assert_eq!(status, sample(40));
}

#[test]
fn the_monitor_knows_nothing_at_first() {
    let monitor = NetworkStatsMonitor::new(2, 30);
    assert_eq!(monitor.stats_of(0), None);
    assert_eq!(monitor.stats_of(1), None);
    assert_eq!(monitor.stats_of(2), None);
}

#[test]
fn the_monitor_keeps_the_last_sample_of_each_slot() {
    let mut monitor = NetworkStatsMonitor::new(3, 30);
    monitor.sample(1, Some(sample(40)));
    monitor.sample(2, Some(sample(90)));
    assert_eq!(monitor.stats_of(0), None);
    assert_eq!(monitor.stats_of(1), Some(sample(40)));
    assert_eq!(monitor.stats_of(2), Some(sample(90)));
    monitor.sample(1, None);
    assert_eq!(monitor.stats_of(1), Some(sample(40)));
    monitor.sample(1, Some(sample(41)));
    assert_eq!(monitor.stats_of(1), Some(sample(41)));
    assert_eq!(monitor.stats_of(2), Some(sample(90)));
}

#[test]
fn a_sample_of_a_slot_that_is_not_there_is_dropped() {
    let mut monitor = NetworkStatsMonitor::new(1, 30);
    monitor.sample(5, Some(sample(40)));
    assert_eq!(monitor.stats_of(0), None);
    assert_eq!(monitor.stats_of(5), None);
}

#[test]
fn a_sample_is_due_every_so_many_ticks() {
    let mut monitor = NetworkStatsMonitor::new(2, 3);
    let due: Vec<bool> = (0..7).map(|_| monitor.tick()).collect();
    assert_eq!(due, vec![false, false, true, false, false, true, false]);
}

#[test]
fn with_an_interval_of_zero_no_sample_is_ever_due() {
    let mut monitor = NetworkStatsMonitor::new(2, 0);
    for _ in 0..5 {
        assert!(!monitor.tick());
    }
}

#[test]
fn with_an_interval_of_one_a_sample_is_due_at_every_tick() {
    let mut monitor = NetworkStatsMonitor::new(2, 1);
    for _ in 0..5 {
        assert!(monitor.tick());
    }
}
