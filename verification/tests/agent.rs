use agent_hub::agent::{
    Agent, AgentCleanupReason, AgentExtra, AgentGetInfoResponse, CloseCode, State, StopCause,
};
use agent_hub::common_rpc_types::{BlockId, HardwareInfo, HardwareUsage, NodeStatus, WhiteList};

fn info(name: &str) -> AgentGetInfoResponse {
    AgentGetInfoResponse {
        name: name.to_string(),
        status: NodeStatus::Run,
        address: Some("1.2.3.4:8080".to_string()),
        codechain_commit_hash: "deadbeef".to_string(),
        codechain_binary_checksum: "cafebabe".to_string(),
    }
}

fn hardware() -> HardwareInfo {
    HardwareInfo {
        disk_usage: HardwareUsage {
            total: 4_000_000_000,
            available: 1_500_000_000,
        },
        memory_usage: HardwareUsage {
            total: 2_000_000_000,
            available: 1_500_000_000,
        },
    }
}

#[test]
fn state_starts_initializing_with_no_name() {
    let s = State::new();
    assert_eq!(s, State::Initializing);
    assert_eq!(s.name(), None);
    assert_eq!(s.stop_cause(), None);
}

#[test]
fn accepted_registration_starts_monitoring() {
    let mut a = Agent::new(1);
    a.update_initialize(&info("alpha"), true);
    assert_eq!(a.state.name(), Some(&"alpha".to_string()));
    assert_eq!(a.state.stop_cause(), None);
    match &a.state {
        State::Normal {
            name,
            address,
            status,
        } => {
            assert_eq!(name, "alpha");
            assert_eq!(address.as_deref(), Some("1.2.3.4:8080"));
            assert_eq!(*status, NodeStatus::Run);
        }
        other => panic!("not monitoring: {:?}", other),
    }
}

#[test]
fn duplicate_registration_stops_without_any_poll() {
    // two supervisors race for the same name; persistence accepts only the
    // first, and the second is terminal at once
    let mut first = Agent::new(1);
    let mut second = Agent::new(2);
    let mut registered: Vec<String> = Vec::new();

    let i1 = info("alpha");
    let accepted1 = !registered.contains(&i1.name);
    registered.push(i1.name.clone());
    first.update_initialize(&i1, accepted1);

    let i2 = info("alpha");
    let accepted2 = !registered.contains(&i2.name);
    second.update_initialize(&i2, accepted2);

    assert!(accepted1);
    assert!(!accepted2);
    assert!(matches!(first.state, State::Normal { .. }));
    // the loop exits on the stop cause before any monitoring poll
    assert_eq!(second.state.stop_cause(), Some(StopCause::AlreadyConnected));
    match &second.state {
        State::Stop { name, cause, .. } => {
            assert_eq!(name, "alpha");
            assert_eq!(*cause, StopCause::AlreadyConnected);
        }
        other => panic!("not stopped: {:?}", other),
    }
}

#[test]
fn initial_snapshot_carries_identity_and_checksums() {
    let s = Agent::initial_snapshot(&info("alpha"));
    assert_eq!(s.name, "alpha");
    assert_eq!(s.status, NodeStatus::Run);
    assert_eq!(s.address.as_deref(), Some("1.2.3.4:8080"));
    let v = s.version.unwrap();
    assert_eq!(v.version, "");
    assert_eq!(v.hash, "deadbeef");
    assert_eq!(v.binary_checksum, "cafebabe");
    assert!(s.peers.is_empty());
    assert!(s.best_block_id.is_none());
    assert!(s.pending_transactions.is_none());
    assert!(s.hardware.is_none());
}

#[test]
fn poll_builds_full_snapshot_and_summary() {
    let mut a = Agent::new(1);
    a.update_initialize(&info("alpha"), true);
    let pending: serde_json::Value = serde_json::from_str("[1,2,3]").unwrap();
    let (snap, ur) = a.update_poll(
        &info("alpha"),
        vec!["5.6.7.8:3485".to_string(), "9.9.9.9:3485".to_string()],
        Some(BlockId {
            block_number: 42,
            hash: "ab".repeat(32),
        }),
        Some("2.1.0".to_string()),
        Some("feedface".to_string()),
        Some(pending.clone()),
        Some("bc".to_string()),
        Some(WhiteList {
            list: vec![("10.0.0.1".to_string(), "tag".to_string())],
            enabled: true,
        }),
        Some(WhiteList {
            list: vec![],
            enabled: false,
        }),
        hardware(),
    );
    assert_eq!(snap.name, "alpha");
    assert_eq!(snap.status, NodeStatus::Run);
    assert_eq!(snap.peers.len(), 2);
    assert_eq!(snap.best_block_id.as_ref().unwrap().block_number, 42);
    let v = snap.version.unwrap();
    assert_eq!(v.version, "2.1.0");
    assert_eq!(v.hash, "feedface");
    assert_eq!(v.binary_checksum, "cafebabe");
    assert_eq!(snap.pending_transactions, Some(pending));
    assert_eq!(snap.hardware.unwrap().disk_usage.available, 1_500_000_000);
    assert_eq!(ur.network_id, "bc");
    assert_eq!(ur.number_of_peers, 2);
    assert_eq!(ur.best_block_number, Some(42));
    assert_eq!(ur.disk_usage.available, 1_500_000_000);
    assert!(matches!(a.state, State::Normal { .. }));
}

#[test]
fn poll_version_falls_back_to_reported_commit_hash() {
    let mut a = Agent::new(1);
    a.update_initialize(&info("alpha"), true);
    let (snap, ur) = a.update_poll(
        &info("alpha"),
        vec![],
        None,
        Some("2.1.0".to_string()),
        None,
        None,
        None,
        None,
        None,
        hardware(),
    );
    let v = snap.version.unwrap();
    assert_eq!(v.version, "");
    assert_eq!(v.hash, "deadbeef");
    assert_eq!(v.binary_checksum, "cafebabe");
    assert_eq!(ur.network_id, "");
    assert_eq!(ur.best_block_number, None);
    assert_eq!(ur.number_of_peers, 0);
}

#[test]
fn cleanup_runs_its_side_effects_exactly_once() {
    let mut a = Agent::new(3);
    a.update_initialize(&info("alpha"), true);
    let first = a.clean_up(AgentCleanupReason::Error("boom".to_string()));
    let action = first.expect("first cleanup performs the side effects");
    assert_eq!(action.remove_id, 3);
    assert_eq!(action.close_code, CloseCode::Error);
    assert_eq!(action.close_message, "boom");
    let snap = action.final_snapshot.expect("monitored session persists a final row");
    assert_eq!(snap.name, "alpha");
    assert_eq!(snap.status, NodeStatus::Error);
    assert_eq!(snap.address.as_deref(), Some("1.2.3.4:8080"));
    assert!(snap.version.is_none());

    // an error path and the termination guard both call cleanup: the second
    // call is a no-op
    let second = a.clean_up(AgentCleanupReason::Unexpected);
    assert!(second.is_none());
    assert!(a.closed);
}

#[test]
fn cleanup_codes_and_messages_per_reason() {
    let mut a = Agent::new(1);
    let act = a
        .clean_up(AgentCleanupReason::AlreadyConnected)
        .unwrap();
    assert_eq!(act.close_code, CloseCode::Error);
    assert_eq!(
        act.close_message,
        "An agent which has same name is already connected"
    );
    // still initializing: nothing to persist
    assert!(act.final_snapshot.is_none());

    let mut b = Agent::new(2);
    let act = b.clean_up(AgentCleanupReason::Success).unwrap();
    assert_eq!(act.close_code, CloseCode::Normal);
    assert_eq!(act.close_message, "");

    let mut c = Agent::new(4);
    let act = c.clean_up(AgentCleanupReason::Unexpected).unwrap();
    assert_eq!(act.close_code, CloseCode::Error);
    assert_eq!(act.close_message, "Unexpected cleanup");
}

#[test]
fn start_request_only_with_toggle_and_remembered_parameters() {
    let extra = AgentExtra {
        prev_env: "RUST_LOG=info".to_string(),
        prev_args: "--quiet".to_string(),
    };
    let r = agent_hub::agent::start_request_at_connect(true, Some(extra)).unwrap();
    assert_eq!(r.env, "RUST_LOG=info");
    assert_eq!(r.args, "--quiet");

    assert!(agent_hub::agent::start_request_at_connect(false, Some(AgentExtra {
        prev_env: String::new(),
        prev_args: String::new(),
    }))
    .is_none());
    assert!(agent_hub::agent::start_request_at_connect(true, None).is_none());
}
