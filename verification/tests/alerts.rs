use agent_hub::alerts::{warning_messages, Alerts, AlertWatch};

fn fresh() -> AlertWatch {
    AlertWatch::new()
}

#[test]
fn connectivity_fires_exactly_at_sixth_low_poll() {
    // seven consecutive polls, all with 2 peers: exactly one warning, at the
    // sixth poll
    let mut w = fresh();
    let mut fired_at = Vec::new();
    for poll in 0..7 {
        let a = w.on_update(2, None, 2_000_000_000);
        if a.connectivity {
            fired_at.push(poll);
        }
    }
    assert_eq!(fired_at, vec![5]);
}

#[test]
fn connectivity_counter_follows_low_peer_runs() {
    // peer counts 2,3,1,0,4,2,6: every value below five increments, the
    // final 6 resets; the counter reaches six at the sixth poll and fires
    let peers = [2usize, 3, 1, 0, 4, 2, 6];
    let mut w = fresh();
    let mut fired_at = Vec::new();
    for (i, p) in peers.iter().enumerate() {
        let a = w.on_update(*p, None, 2_000_000_000);
        if a.connectivity {
            fired_at.push(i);
        }
    }
    assert_eq!(fired_at, vec![5]);
    assert_eq!(w.low_peer_polls, 0);
}

#[test]
fn connectivity_no_refire_past_six_until_reset() {
    let mut w = fresh();
    let mut count = 0;
    for _ in 0..20 {
        if w.on_update(0, None, 2_000_000_000).connectivity {
            count += 1;
        }
    }
    assert_eq!(count, 1);
    // recovery, then a fresh run of six fires once more
    assert!(!w.on_update(9, None, 2_000_000_000).connectivity);
    let mut second = Vec::new();
    for poll in 0..6 {
        if w.on_update(1, None, 2_000_000_000).connectivity {
            second.push(poll);
        }
    }
    assert_eq!(second, vec![5]);
}

#[test]
fn stall_fires_at_third_poll_without_progress() {
    // best blocks 100,100,100,105: counters 1,2,3,0 and the warning fires
    // exactly at the third poll
    let blocks = [100u64, 100, 100, 105];
    let mut w = fresh();
    let mut fired_at = Vec::new();
    for (i, b) in blocks.iter().enumerate() {
        let a = w.on_update(9, Some(*b), 2_000_000_000);
        assert_eq!(a.chain_stall, i == 2);
        if a.chain_stall {
            fired_at.push(i);
        }
    }
    assert_eq!(fired_at, vec![2]);
    assert_eq!(w.no_progress_polls, 0);
    assert_eq!(w.best_block_seen, Some(105));
}

#[test]
fn stall_skipped_when_no_best_block() {
    let mut w = fresh();
    for _ in 0..10 {
        let a = w.on_update(9, None, 2_000_000_000);
        assert!(!a.chain_stall);
    }
    assert_eq!(w.no_progress_polls, 0);
    assert_eq!(w.best_block_seen, None);
}

#[test]
fn stall_refires_only_after_progress() {
    let mut w = fresh();
    let mut fired = Vec::new();
    let blocks = [50u64, 50, 50, 50, 50, 51, 51, 51, 51];
    for (i, b) in blocks.iter().enumerate() {
        if w.on_update(9, Some(*b), 2_000_000_000).chain_stall {
            fired.push(i);
        }
    }
    // counters: 1,2,3,4,5,0,1,2,3 -> fires at poll 2 and poll 8
    assert_eq!(fired, vec![2, 8]);
}

#[test]
fn disk_fires_once_per_downward_crossing() {
    // availability 2e9, 0.5e9, 0.4e9, 1.2e9, 0.9e9: warnings at the second
    // and the fifth poll only
    let avail = [
        2_000_000_000i64,
        500_000_000,
        400_000_000,
        1_200_000_000,
        900_000_000,
    ];
    let mut w = fresh();
    let mut fired_at = Vec::new();
    for (i, d) in avail.iter().enumerate() {
        if w.on_update(9, None, *d).disk {
            fired_at.push(i);
        }
    }
    assert_eq!(fired_at, vec![1, 4]);
}

#[test]
fn disk_exact_threshold_neither_fires_nor_rearms() {
    let mut w = fresh();
    assert!(w.on_update(9, None, 400_000_000).disk);
    // exactly the threshold: no warning (not below), and no re-arm (not
    // strictly above)
    assert!(!w.on_update(9, None, 1_000_000_000).disk);
    assert!(!w.on_update(9, None, 900_000_000).disk);
    // strictly above re-arms; the next drop fires again
    assert!(!w.on_update(9, None, 1_000_000_001).disk);
    assert!(w.on_update(9, None, 999_999_999).disk);
}

#[test]
fn warning_messages_follow_fired_alerts() {
    let all = Alerts {
        connectivity: true,
        chain_stall: true,
        disk: true,
    };
    let msgs = warning_messages(all, "alpha", 2_000_000);
    assert_eq!(
        msgs,
        vec![
            "alpha failed to establish enough connections in a minute.".to_string(),
            "alpha no block update in 30 seconds.".to_string(),
            "alpha has only 2 MB free space.".to_string(),
        ]
    );
    let none = Alerts {
        connectivity: false,
        chain_stall: false,
        disk: false,
    };
    assert!(warning_messages(none, "alpha", 0).is_empty());
    let only_disk = Alerts {
        connectivity: false,
        chain_stall: false,
        disk: true,
    };
    let msgs = warning_messages(only_disk, "beta", 999_999_999);
    assert_eq!(msgs, vec!["beta has only 999 MB free space.".to_string()]);
}

#[test]
fn alert_messages_exact_text() {
    assert_eq!(
        agent_hub::alerts::low_connection_message("alpha"),
        "alpha failed to establish enough connections in a minute."
    );
    assert_eq!(
        agent_hub::alerts::no_block_update_message("alpha"),
        "alpha no block update in 30 seconds."
    );
    assert_eq!(
        agent_hub::alerts::low_disk_message("alpha", 500_000_000),
        "alpha has only 500 MB free space."
    );
    assert_eq!(
        agent_hub::alerts::low_disk_message("beta", -1_500_000),
        "beta has only -1 MB free space."
    );
}
