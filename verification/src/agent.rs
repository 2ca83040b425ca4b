//! The per-node supervision core: the session state machine, the decisions
//! of the polling loop, snapshot building, and the idempotent cleanup.
//!
//! The supervisor itself makes no remote calls: the surrounding program
//! polls the node and the persistence layer and hands the outcomes in; this
//! module decides the state transition, the snapshot to persist, and the
//! cleanup actions to perform.

use vstd::prelude::*;
use vstd::string::StringExecFns;
use crate::common_rpc_types::{
    BlockId, HardwareInfo, NodeName, NodeStatus, NodeVersion, PendingTransaction,
    ShellStartCodeChainRequest, WhiteList,
};

verus! {

/// The session state of one supervisor.
#[derive(Debug, PartialEq)]
pub enum State {
    /// No name or address is known yet; the first poll has not finished.
    Initializing,
    /// The node is actively monitored.
    Normal { name: NodeName, address: Option<String>, status: NodeStatus },
    /// Terminal: the session ended and no further polling happens.
    Stop { name: NodeName, address: Option<String>, status: NodeStatus, cause: StopCause },
}

/// Why a session reached `State::Stop`.
#[derive(Debug, Copy, Clone, PartialEq, Eq, Structural)]
pub enum StopCause {
    /// Another supervisor already holds this node name.
    AlreadyConnected,
}

/// Why a supervisor is being cleaned up.
#[derive(Debug, Clone)]
pub enum AgentCleanupReason {
    /// A poll or persistence call failed with this message.
    Error(String),
    /// A graceful end (reserved; no current path produces it).
    Success,
    /// The node name was already registered elsewhere.
    AlreadyConnected,
    /// The supervisor ended without any explicit cleanup having run.
    Unexpected,
}

/// How the remote session is closed: gracefully or flagged as an error.
#[derive(Debug, Copy, Clone, PartialEq, Eq, Structural)]
pub enum CloseCode {
    Normal,
    Error,
}

/// What the first remote call of every poll reports about the node.
#[derive(Debug, Clone)]
pub struct AgentGetInfoResponse {
    pub name: NodeName,
    pub status: NodeStatus,
    pub address: Option<String>,
    pub codechain_commit_hash: String,
    pub codechain_binary_checksum: String,
}

/// The last-known launch parameters persistence remembers for a node.
#[derive(Debug, Clone)]
pub struct AgentExtra {
    pub prev_env: String,
    pub prev_args: String,
}

/// The row written to durable storage after a poll (or on cleanup).
pub struct PersistedSnapshot {
    pub name: NodeName,
    pub status: NodeStatus,
    pub address: Option<String>,
    pub peers: Vec<String>,
    pub best_block_id: Option<BlockId>,
    pub version: Option<NodeVersion>,
    pub pending_transactions: Option<PendingTransaction>,
    pub whitelist: Option<WhiteList>,
    pub blacklist: Option<WhiteList>,
    pub hardware: Option<HardwareInfo>,
}

/// The fields every snapshot starts from: empty name, stopped, nothing
/// reported.
pub open spec fn snapshot_is_blank(s: PersistedSnapshot) -> bool {
    &&& s.name@ == Seq::<char>::empty()
    &&& s.status == NodeStatus::Stop
    &&& s.address is None
    &&& s.peers@ == Seq::<String>::empty()
    &&& s.best_block_id is None
    &&& s.version is None
    &&& s.pending_transactions is None
    &&& s.whitelist is None
    &&& s.blacklist is None
    &&& s.hardware is None
}

impl Default for PersistedSnapshot {
    /// A blank snapshot; rows not reported stay empty.
    fn default() -> (r: PersistedSnapshot)
        ensures
            snapshot_is_blank(r),
    {
        PersistedSnapshot {
            name: String::new(),
            status: NodeStatus::Stop,
            address: None,
            peers: Vec::new(),
            best_block_id: None,
            version: None,
            pending_transactions: None,
            whitelist: None,
            blacklist: None,
            hardware: None,
        }
    }
}

/// The per-poll outcome handed to the alert detectors, produced only by a
/// successful poll in `Normal` state.
#[derive(Debug)]
pub struct UpdateResult {
    pub network_id: String,
    pub number_of_peers: usize,
    pub best_block_number: Option<u64>,
    pub disk_usage: crate::common_rpc_types::HardwareUsage,
}

impl State {
    /// The initial state of every supervisor.
    pub fn new() -> (s: State)
        ensures
            s is Initializing,
    {
        State::Initializing
    }

    /// The node name, once one is known.
    pub fn name(&self) -> (r: Option<&NodeName>)
        ensures
            r == (match self {
                State::Initializing => None::<&NodeName>,
                State::Normal { name, .. } => Some(name),
                State::Stop { name, .. } => Some(name),
            }),
    {
        match self {
            State::Initializing => None,
            State::Normal { name, .. } => Some(name),
            State::Stop { name, .. } => Some(name),
        }
    }

    /// The cause of a stop, if this state is terminal.
    pub fn stop_cause(&self) -> (r: Option<StopCause>)
        ensures
            r == (match self {
                State::Stop { cause, .. } => Some(*cause),
                _ => None::<StopCause>,
            }),
    {
        match self {
            State::Stop { cause, .. } => Some(*cause),
            _ => None,
        }
    }
}

impl Clone for State {
    /// An equal copy of the state.
    fn clone(&self) -> (r: State)
        ensures
            r == *self,
    {
        match self {
            State::Initializing => State::Initializing,
            State::Normal { name, address, status } => State::Normal {
                name: name.clone(),
                address: clone_opt_string(address),
                status: *status,
            },
            State::Stop { name, address, status, cause } => State::Stop {
                name: name.clone(),
                address: clone_opt_string(address),
                status: *status,
                cause: *cause,
            },
        }
    }
}

/// An equal copy of an optional string.
pub fn clone_opt_string(a: &Option<String>) -> (r: Option<String>)
    ensures
        r == *a,
{
    match a {
        Some(s) => Some(s.clone()),
        None => None,
    }
}

/// What the state machine does with the first poll of a session: the name
/// registration either succeeds and monitoring starts, or the name is a
/// duplicate and the session is terminal at once.
pub open spec fn spec_initialize_transition(info: AgentGetInfoResponse, accepted: bool) -> State {
    if accepted {
        State::Normal { name: info.name, address: info.address, status: info.status }
    } else {
        State::Stop {
            name: info.name,
            address: info.address,
            status: info.status,
            cause: StopCause::AlreadyConnected,
        }
    }
}

/// A version record resolved from a poll: the reported version and commit
/// hash when both are present, otherwise an empty version with the commit
/// hash the get-info call reported.
pub open spec fn resolved_version_ok(
    v: NodeVersion,
    info: AgentGetInfoResponse,
    version: Option<String>,
    commit_hash: Option<String>,
) -> bool {
    &&& (version is Some && commit_hash is Some) ==> v.version == version.unwrap() && v.hash
        == commit_hash.unwrap()
    &&& !(version is Some && commit_hash is Some) ==> v.version@ == Seq::<char>::empty() && v.hash
        == info.codechain_commit_hash
    &&& v.binary_checksum == info.codechain_binary_checksum
}

/// Whether a cleanup closes the session with an error code.
pub open spec fn cleanup_is_error(reason: AgentCleanupReason) -> bool {
    !(reason is Success)
}

/// The message the session is closed with.
pub open spec fn cleanup_message(reason: AgentCleanupReason) -> Seq<char> {
    match reason {
        AgentCleanupReason::Error(m) => m@,
        AgentCleanupReason::Unexpected => "Unexpected cleanup"@,
        AgentCleanupReason::AlreadyConnected => (
        "An agent which has same name is already connected"@),
        AgentCleanupReason::Success => Seq::<char>::empty(),
    }
}

/// The side effects one cleanup performs; they happen at most once per
/// supervisor.
pub struct CleanupAction {
    /// Deregister this supervisor from the registry.
    pub remove_id: i32,
    /// For a session that was being monitored: the final snapshot to
    /// persist, its status forced to `Error`.
    pub final_snapshot: Option<PersistedSnapshot>,
    /// How to close the remote session.
    pub close_code: CloseCode,
    pub close_message: String,
}

/// One supervisor's verified core: its identity, session state, and the
/// one-shot cleanup flag.
pub struct Agent {
    pub id: i32,
    pub state: State,
    pub closed: bool,
}

/// Whether a cleanup call on this supervisor would still perform its side
/// effects.
pub open spec fn cleanup_pending(a: Agent) -> bool {
    !a.closed
}

/// The supervisor after a cleanup call: marked closed, everything else
/// untouched.
pub open spec fn spec_after_cleanup(a: Agent) -> Agent {
    Agent { closed: true, ..a }
}

impl Agent {
    /// A fresh supervisor: initializing, cleanup still pending.
    pub fn new(id: i32) -> (a: Agent)
        ensures
            a.id == id,
            a.state is Initializing,
            !a.closed,
    {
        Agent { id, state: State::Initializing, closed: false }
    }

    /// The snapshot registered on first contact: identity and an empty
    /// version carrying the reported commit hash and binary checksum.
    pub fn initial_snapshot(info: &AgentGetInfoResponse) -> (s: PersistedSnapshot)
        ensures
            s.name == info.name,
            s.status == info.status,
            s.address == info.address,
            s.version is Some,
            (s.version.unwrap().version@ == Seq::<char>::empty()),
            s.version.unwrap().hash == info.codechain_commit_hash,
            s.version.unwrap().binary_checksum == info.codechain_binary_checksum,
            s.peers@ == Seq::<String>::empty(),
            s.best_block_id is None,
            s.pending_transactions is None,
            s.whitelist is None,
            s.blacklist is None,
            s.hardware is None,
    {
        let mut s = PersistedSnapshot::default();
        s.name = info.name.clone();
        s.status = info.status;
        s.address = clone_opt_string(&info.address);
        s.version = Some(
            NodeVersion {
                version: String::new(),
                hash: info.codechain_commit_hash.clone(),
                binary_checksum: info.codechain_binary_checksum.clone(),
            },
        );
        s
    }

    /// Applies the registration outcome of the first poll: persistence
    /// accepted the name and monitoring starts, or it was a duplicate and
    /// the session stops at once.  Counts as initialization, not as a
    /// monitoring tick, so no poll outcome is produced.
    pub fn update_initialize(&mut self, info: &AgentGetInfoResponse, accepted: bool)
        requires
            old(self).state is Initializing,
            !old(self).closed,
        ensures
            final(self).id == old(self).id,
            final(self).closed == old(self).closed,
            final(self).state == spec_initialize_transition(*info, accepted),
    {
        if accepted {
            self.state = State::Normal {
                name: info.name.clone(),
                address: clone_opt_string(&info.address),
                status: info.status,
            };
        } else {
            self.state = State::Stop {
                name: info.name.clone(),
                address: clone_opt_string(&info.address),
                status: info.status,
                cause: StopCause::AlreadyConnected,
            };
        }
    }

    /// Applies one successful monitoring poll: refreshes the session state
    /// from the reported identity, builds the full snapshot to persist, and
    /// summarizes the poll for the alert detectors.
    pub fn update_poll(
        &mut self,
        info: &AgentGetInfoResponse,
        peers: Vec<String>,
        best_block_id: Option<BlockId>,
        version: Option<String>,
        commit_hash: Option<String>,
        pending_transactions: Option<PendingTransaction>,
        network_id: Option<String>,
        whitelist: Option<WhiteList>,
        blacklist: Option<WhiteList>,
        hardware: HardwareInfo,
    ) -> (r: (PersistedSnapshot, UpdateResult))
        requires
            old(self).state is Normal,
            !old(self).closed,
        ensures
            final(self).id == old(self).id,
            final(self).closed == old(self).closed,
            final(self).state == (State::Normal {
                name: info.name,
                address: info.address,
                status: info.status,
            }),
            r.0.name == info.name,
            r.0.status == info.status,
            r.0.address == info.address,
            r.0.peers == peers,
            r.0.best_block_id == best_block_id,
            r.0.version is Some && resolved_version_ok(
                r.0.version.unwrap(),
                *info,
                version,
                commit_hash,
            ),
            r.0.pending_transactions == pending_transactions,
            r.0.whitelist == whitelist,
            r.0.blacklist == blacklist,
            r.0.hardware == Some(hardware),
            r.1.network_id@ == (match network_id {
                Some(n) => n@,
                None => Seq::<char>::empty(),
            }),
            r.1.number_of_peers == peers@.len(),
            r.1.best_block_number == (match best_block_id {
                Some(b) => Some(b.block_number),
                None => None::<u64>,
            }),
            r.1.disk_usage == hardware.disk_usage,
    {
        let resolved = if version.is_some() && commit_hash.is_some() {
            NodeVersion {
                version: version.unwrap(),
                hash: commit_hash.unwrap(),
                binary_checksum: info.codechain_binary_checksum.clone(),
            }
        } else {
            NodeVersion {
                version: String::new(),
                hash: info.codechain_commit_hash.clone(),
                binary_checksum: info.codechain_binary_checksum.clone(),
            }
        };
        let number_of_peers = peers.len();
        let best_block_number = match &best_block_id {
            Some(b) => Some(b.block_number),
            None => None,
        };
        let disk_usage = hardware.disk_usage;
        let snapshot = PersistedSnapshot {
            name: info.name.clone(),
            status: info.status,
            address: clone_opt_string(&info.address),
            peers,
            best_block_id,
            version: Some(resolved),
            pending_transactions,
            whitelist,
            blacklist,
            hardware: Some(hardware),
        };
        self.state = State::Normal {
            name: info.name.clone(),
            address: clone_opt_string(&info.address),
            status: info.status,
        };
        let network_id = match network_id {
            Some(n) => n,
            None => String::new(),
        };
        let result = UpdateResult { network_id, number_of_peers, best_block_number, disk_usage };
        (snapshot, result)
    }

    /// Performs the one-shot cleanup decision.  The first call returns the
    /// side effects to perform — deregistration, a final `Error` snapshot
    /// if the session was being monitored, and the close code and message —
    /// and marks the supervisor closed; every later call returns `None` and
    /// changes nothing.
    pub fn clean_up(&mut self, reason: AgentCleanupReason) -> (r: Option<CleanupAction>)
        ensures
            *final(self) == spec_after_cleanup(*old(self)),
            r is Some <==> cleanup_pending(*old(self)),
            match r {
                Some(a) => {
                    &&& a.remove_id == old(self).id
                    &&& a.close_code == (if cleanup_is_error(reason) {
                        CloseCode::Error
                    } else {
                        CloseCode::Normal
                    })
                    &&& a.close_message@ == cleanup_message(reason)
                    &&& match old(self).state {
                        State::Normal { name, address, .. } => {
                            &&& a.final_snapshot is Some
                            &&& a.final_snapshot.unwrap().name == name
                            &&& a.final_snapshot.unwrap().status == NodeStatus::Error
                            &&& a.final_snapshot.unwrap().address == address
                            &&& a.final_snapshot.unwrap().peers@ == Seq::<String>::empty()
                            &&& a.final_snapshot.unwrap().best_block_id is None
                            &&& a.final_snapshot.unwrap().version is None
                            &&& a.final_snapshot.unwrap().pending_transactions is None
                            &&& a.final_snapshot.unwrap().whitelist is None
                            &&& a.final_snapshot.unwrap().blacklist is None
                            &&& a.final_snapshot.unwrap().hardware is None
                        },
                        _ => a.final_snapshot is None,
                    }
                },
                None => true,
            },
    {
        if self.closed {
            return None;
        }
        self.closed = true;

        let (is_error, close_message) = match reason {
            AgentCleanupReason::Error(err) => (true, err),
            AgentCleanupReason::Unexpected => (true, String::from_str("Unexpected cleanup")),
            AgentCleanupReason::AlreadyConnected => (
                true,
                String::from_str("An agent which has same name is already connected"),
            ),
            AgentCleanupReason::Success => (false, String::new()),
        };

        let final_snapshot = match &self.state {
            State::Normal { name, address, .. } => {
                let mut s = PersistedSnapshot::default();
                s.name = name.clone();
                s.status = NodeStatus::Error;
                s.address = clone_opt_string(address);
                Some(s)
            },
            _ => None,
        };

        Some(
            CleanupAction {
                remove_id: self.id,
                final_snapshot,
                close_code: if is_error {
                    CloseCode::Error
                } else {
                    CloseCode::Normal
                },
                close_message,
            },
        )
    }
}

/// What the polling loop does with the state after a poll: stop for a
/// terminal state, keep monitoring otherwise.
pub open spec fn spec_run_control(s: State) -> Option<StopCause> {
    match s {
        State::Stop { cause, .. } => Some(cause),
        _ => None,
    }
}

/// Builds the request that resumes a previously running node process at
/// connect time: only when the environment toggle is set and persistence
/// remembers launch parameters for this name.
pub fn start_request_at_connect(
    start_at_connect: bool,
    extra: Option<AgentExtra>,
) -> (r: Option<ShellStartCodeChainRequest>)
    ensures
        r is Some <==> (start_at_connect && extra is Some),
        r is Some ==> r.unwrap().env == extra.unwrap().prev_env && r.unwrap().args
            == extra.unwrap().prev_args,
{
    if start_at_connect {
        match extra {
            Some(e) => Some(ShellStartCodeChainRequest { env: e.prev_env, args: e.prev_args }),
            None => None,
        }
    } else {
        None
    }
}

// ---------------------------------------------------------------------
// The laws of registration and cleanup.
// ---------------------------------------------------------------------

/// Persistence accepts a registration exactly when no session holds the
/// name yet.
pub open spec fn registration_accepted(registered: Set<Seq<char>>, name: Seq<char>) -> bool {
    !registered.contains(name)
}

/// The set of held names after a successful registration.
pub open spec fn register_name(registered: Set<Seq<char>>, name: Seq<char>) -> Set<Seq<char>> {
    registered.insert(name)
}

/// Duplicate registration: of two independent initialization attempts with
/// the same name, where persistence accepts only the first, the second goes
/// straight to `Stop { AlreadyConnected }`, and the loop control stops it
/// before any monitoring poll.
pub proof fn lemma_duplicate_registration_stops_second(
    registered: Set<Seq<char>>,
    info1: AgentGetInfoResponse,
    info2: AgentGetInfoResponse,
)
    requires
        info1.name@ == info2.name@,
        registration_accepted(registered, info1.name@),
    ensures
        !registration_accepted(register_name(registered, info1.name@), info2.name@),
        spec_initialize_transition(
            info2,
            registration_accepted(register_name(registered, info1.name@), info2.name@),
        ) == (State::Stop {
            name: info2.name,
            address: info2.address,
            status: info2.status,
            cause: StopCause::AlreadyConnected,
        }),
        spec_run_control(
            spec_initialize_transition(
                info2,
                registration_accepted(register_name(registered, info1.name@), info2.name@),
            ),
        ) == Some(StopCause::AlreadyConnected),
{
}

/// Cleanup is idempotent: after one cleanup the supervisor is closed, a
/// second cleanup performs no side effects (`clean_up` returns `None` on a
/// closed supervisor), and the supervisor no longer changes.
pub proof fn lemma_cleanup_idempotent(a: Agent)
    ensures
        !cleanup_pending(spec_after_cleanup(a)),
        spec_after_cleanup(spec_after_cleanup(a)) == spec_after_cleanup(a),
{
}

} // verus!
