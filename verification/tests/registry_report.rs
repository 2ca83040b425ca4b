use agent_hub::agent::{Agent, AgentGetInfoResponse, State};
use agent_hub::common_rpc_types::{HardwareInfo, HardwareUsage, NodeStatus};
use agent_hub::daily_reporter::{report_data_of_snapshot, report_due, send_daily_report, CalendarDate};
use agent_hub::registry::{AgentRecord, Registry, ReportUpdateResult};

fn normal(name: &str) -> State {
    State::Normal {
        name: name.to_string(),
        address: Some("1.2.3.4:8080".to_string()),
        status: NodeStatus::Run,
    }
}

fn record(name: &str) -> AgentRecord {
    AgentRecord {
        state: normal(name),
        recent_update_result: None,
        maximum_memory_usage: None,
    }
}

#[test]
fn registry_add_replace_remove() {
    let mut r = Registry::new();
    r.add_agent(1, record("alpha"));
    r.add_agent(2, record("beta"));
    assert_eq!(r.entries.len(), 2);

    // adding under a held id replaces the record in place
    r.add_agent(1, record("gamma"));
    assert_eq!(r.entries.len(), 2);
    assert_eq!(r.entries[0].1.state.name(), Some(&"gamma".to_string()));

    // removing an absent id is a no-op
    r.remove_agent(9);
    assert_eq!(r.entries.len(), 2);

    r.remove_agent(1);
    assert_eq!(r.entries.len(), 1);
    assert_eq!(r.entries[0].0, 2);
}

#[test]
fn registry_snapshot_copies_records() {
    let mut r = Registry::new();
    r.add_agent(1, record("alpha"));
    r.add_agent(2, AgentRecord {
        state: State::Initializing,
        recent_update_result: Some(ReportUpdateResult {
            number_of_peers: 3,
            best_block_number: Some(7),
            disk_usage: None,
            disk_usages: Some(vec![HardwareUsage {
                total: 10,
                available: 4,
            }]),
        }),
        maximum_memory_usage: Some(HardwareUsage {
            total: 100,
            available: 60,
        }),
    });
    let states = r.get_agents_states();
    assert_eq!(states.len(), 2);
    assert_eq!(states[0].state.name(), Some(&"alpha".to_string()));
    let u = states[1].recent_update_result.as_ref().unwrap();
    assert_eq!(u.number_of_peers, 3);
    assert_eq!(u.best_block_number, Some(7));
    assert_eq!(u.disk_usages.as_ref().unwrap()[0].available, 4);
    assert_eq!(
        states[1].maximum_memory_usage,
        Some(HardwareUsage {
            total: 100,
            available: 60,
        })
    );
}

#[test]
fn registry_peak_memory_keeps_the_larger_used_figure() {
    let mut r = Registry::new();
    r.add_agent(1, record("alpha"));
    let ur = |peers: usize| ReportUpdateResult {
        number_of_peers: peers,
        best_block_number: None,
        disk_usage: None,
        disk_usages: None,
    };
    // used 40
    r.record_update(1, normal("alpha"), ur(1), HardwareUsage {
        total: 100,
        available: 60,
    });
    // used 10: peak stays
    r.record_update(1, normal("alpha"), ur(2), HardwareUsage {
        total: 100,
        available: 90,
    });
    assert_eq!(
        r.entries[0].1.maximum_memory_usage,
        Some(HardwareUsage {
            total: 100,
            available: 60,
        })
    );
    assert_eq!(
        r.entries[0]
            .1
            .recent_update_result
            .as_ref()
            .unwrap()
            .number_of_peers,
        2
    );
    // used 70: peak rises
    r.record_update(1, normal("alpha"), ur(3), HardwareUsage {
        total: 100,
        available: 30,
    });
    assert_eq!(
        r.entries[0].1.maximum_memory_usage,
        Some(HardwareUsage {
            total: 100,
            available: 30,
        })
    );
    // unknown id: no-op
    r.record_update(9, normal("ghost"), ur(4), HardwareUsage {
        total: 1,
        available: 0,
    });
    assert_eq!(r.entries.len(), 1);
}

#[test]
fn daily_report_full_text_and_memory_reset() {
    let mut r = Registry::new();
    r.add_agent(1, AgentRecord {
        state: normal("alpha"),
        recent_update_result: Some(ReportUpdateResult {
            number_of_peers: 7,
            best_block_number: Some(42),
            disk_usage: Some(HardwareUsage {
                total: 4_000_000_000,
                available: 1_500_000_000,
            }),
            disk_usages: None,
        }),
        maximum_memory_usage: Some(HardwareUsage {
            total: 2_000_000_000,
            available: 1_500_000_000,
        }),
    });
    r.add_agent(2, AgentRecord {
        state: State::Initializing,
        recent_update_result: None,
        maximum_memory_usage: None,
    });
    r.add_agent(3, AgentRecord {
        state: State::Stop {
            name: "omega".to_string(),
            address: None,
            status: NodeStatus::Error,
            cause: agent_hub::agent::StopCause::AlreadyConnected,
        },
        recent_update_result: None,
        maximum_memory_usage: Some(HardwareUsage {
            total: 1_000_000_000,
            available: 750_000_000,
        }),
    });

    let message = send_daily_report(&None, &mut r);
    let expected = "CodeChain Server is running\n\
                    DB is connected\n\
                    Agent: alpha\n\
                    \u{20}\u{20}address: 1.2.3.4:8080\n\
                    \u{20}\u{20}status: Run\n\
                    \u{20}\u{20}peer count: 7\n\
                    \u{20}\u{20}best block number: 42\n\
                    \u{20}\u{20}available disk: 1500 MB\n\
                    \u{20}\u{20}memory usage: 500 MB / 2000 MB\n\
                    Agent: omega\n\
                    \u{20}\u{20}address: None\n\
                    \u{20}\u{20}status: Error\n\
                    \u{20}\u{20}memory usage: 250 MB / 1000 MB";
    assert_eq!(message, expected);

    // the peak-memory statistic is reset for the next period
    assert!(r.entries.iter().all(|e| e.1.maximum_memory_usage.is_none()));
    // everything else is kept
    assert_eq!(r.entries.len(), 3);
    assert_eq!(
        r.entries[0]
            .1
            .recent_update_result
            .as_ref()
            .unwrap()
            .number_of_peers,
        7
    );
}

#[test]
fn daily_report_db_error_and_multi_disk_breakdown() {
    let mut r = Registry::new();
    r.add_agent(1, AgentRecord {
        state: normal("alpha"),
        recent_update_result: Some(ReportUpdateResult {
            number_of_peers: 1,
            best_block_number: None,
            disk_usage: None,
            disk_usages: Some(vec![
                HardwareUsage {
                    total: 9_000_000_000,
                    available: 2_500_000_000,
                },
                HardwareUsage {
                    total: 5_000_000,
                    available: 1_000_000,
                },
            ]),
        }),
        maximum_memory_usage: None,
    });
    let message = send_daily_report(&Some("timeout".to_string()), &mut r);
    let expected = "CodeChain Server is running\n\
                    DB connection has an error : timeout\n\
                    Agent: alpha\n\
                    \u{20}\u{20}address: 1.2.3.4:8080\n\
                    \u{20}\u{20}status: Run\n\
                    \u{20}\u{20}peer count: 1\n\
                    \u{20}\u{20}best block number: None\n\
                    \u{20}\u{20}available disk: 2501(2500000000 + 1000000) MB";
    assert_eq!(message, expected);
}

#[test]
fn daily_report_unknown_disk_when_no_figures() {
    let mut r = Registry::new();
    r.add_agent(1, AgentRecord {
        state: normal("alpha"),
        recent_update_result: Some(ReportUpdateResult {
            number_of_peers: 0,
            best_block_number: None,
            disk_usage: None,
            disk_usages: None,
        }),
        maximum_memory_usage: None,
    });
    let message = send_daily_report(&None, &mut r);
    assert!(message.contains("  available disk: Unknown"));
}

#[test]
fn snapshot_round_trip_reproduces_report_figures() {
    // a snapshot written by a poll, read back by the aggregator, shows the
    // poll's own figures
    let mut a = Agent::new(1);
    let info = AgentGetInfoResponse {
        name: "alpha".to_string(),
        status: NodeStatus::Run,
        address: None,
        codechain_commit_hash: "aa".to_string(),
        codechain_binary_checksum: "bb".to_string(),
    };
    a.update_initialize(&info, true);
    let (snap, ur) = a.update_poll(
        &info,
        vec!["p1".to_string(), "p2".to_string(), "p3".to_string()],
        Some(agent_hub::common_rpc_types::BlockId {
            block_number: 99,
            hash: "00".to_string(),
        }),
        None,
        None,
        None,
        Some("bc".to_string()),
        None,
        None,
        HardwareInfo {
            disk_usage: HardwareUsage {
                total: 10,
                available: 3,
            },
            memory_usage: HardwareUsage {
                total: 20,
                available: 5,
            },
        },
    );
    let read_back = report_data_of_snapshot(&snap);
    assert_eq!(read_back.number_of_peers, ur.number_of_peers);
    assert_eq!(read_back.best_block_number, ur.best_block_number);
    assert_eq!(read_back.disk_usage, Some(ur.disk_usage));
    assert_eq!(read_back.number_of_peers, 3);
    assert_eq!(read_back.best_block_number, Some(99));
}

#[test]
fn report_due_exactly_on_day_change() {
    let d1 = CalendarDate {
        year: 2020,
        month: 3,
        day: 31,
    };
    let d2 = CalendarDate {
        year: 2020,
        month: 4,
        day: 1,
    };
    assert!(!report_due(d1, d1));
    assert!(report_due(d1, d2));
    assert!(report_due(d2, d1));
}
