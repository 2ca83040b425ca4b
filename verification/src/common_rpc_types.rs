//! The plain value types exchanged with a supervised node and with the
//! persistence layer: node status, version data, peer lists, hardware
//! readings and structured logs.

use vstd::prelude::*;
use vstd::string::StringExecFns;

verus! {

/// A node's unique name, the key under which a session is registered.
pub type NodeName = String;

/// A pair of node names describing a connection between two nodes.
pub type Connection = (NodeName, NodeName);

/// A pending transaction is carried through as raw JSON; this crate never
/// looks inside it.
pub type PendingTransaction = serde_json::Value;

/// `serde_json::Value` is declared here so snapshots can carry raw JSON
/// payloads (pending transactions) opaquely.
#[verifier::external_type_specification]
#[verifier::external_body]
pub struct ExValue(serde_json::Value);

/// The operational status a node reports for itself.
#[derive(Debug, Copy, Clone, PartialEq, Eq, Structural)]
pub enum NodeStatus {
    Starting,
    Run,
    Stop,
    Updating,
    Error,
    UFO,
}

impl Default for NodeStatus {
    /// A node whose status nothing has reported counts as stopped.
    fn default() -> (r: NodeStatus)
        ensures
            r == NodeStatus::Stop,
    {
        NodeStatus::Stop
    }
}

impl NodeStatus {
    /// The text under which this status appears in reports.
    pub open spec fn spec_text(self) -> Seq<char> {
        match self {
            NodeStatus::Starting => "Starting"@,
            NodeStatus::Run => "Run"@,
            NodeStatus::Stop => "Stop"@,
            NodeStatus::Updating => "Updating"@,
            NodeStatus::Error => "Error"@,
            NodeStatus::UFO => "UFO"@,
        }
    }

    /// Renders the status for reports.
    pub fn text(&self) -> (s: String)
        ensures
            s@ == self.spec_text(),
    {
        match self {
            NodeStatus::Starting => String::from_str("Starting"),
            NodeStatus::Run => String::from_str("Run"),
            NodeStatus::Stop => String::from_str("Stop"),
            NodeStatus::Updating => String::from_str("Updating"),
            NodeStatus::Error => String::from_str("Error"),
            NodeStatus::UFO => String::from_str("UFO"),
        }
    }
}

/// The launch parameters handed to a node when it is asked to start its
/// chain process.
#[derive(Debug, Clone)]
pub struct ShellStartCodeChainRequest {
    pub env: String,
    pub args: String,
}

/// How a node's binary is to be updated: by git commit or by binary URL.
#[derive(Debug, Clone)]
pub enum UpdateCodeChainRequest {
    Git { commit_hash: String },
    Binary { binary_url: String, binary_checksum: String },
}

/// An update request together with the launch parameters to restart with.
pub type ShellUpdateCodeChainRequest = (ShellStartCodeChainRequest, UpdateCodeChainRequest);

/// The best block a node reports: its height and its hash (hex text).
#[derive(Debug, Clone, PartialEq)]
pub struct BlockId {
    pub block_number: u64,
    pub hash: String,
}

/// A node's reported software version.
#[derive(Debug, Clone, PartialEq)]
pub struct NodeVersion {
    pub version: String,
    pub hash: String,
    pub binary_checksum: String,
}

/// A label attached to a white- or blacklist entry.
pub type Tag = String;

/// A node's network white- or blacklist: tagged addresses plus whether the
/// list is enforced.
#[derive(Debug, Clone, PartialEq)]
pub struct WhiteList {
    pub list: Vec<(String, Tag)>,
    pub enabled: bool,
}

/// The blacklist has the same shape as the whitelist.
pub type BlackList = WhiteList;

/// A single resource reading (disk or memory), in bytes.
#[derive(Debug, Copy, Clone, PartialEq, Eq, Structural)]
pub struct HardwareUsage {
    pub total: i64,
    pub available: i64,
}

/// One hardware snapshot of a node's machine.
#[derive(Debug, Copy, Clone, PartialEq, Eq, Structural)]
pub struct HardwareInfo {
    pub disk_usage: HardwareUsage,
    pub memory_usage: HardwareUsage,
}

/// One structured log line fetched from a node.
#[derive(Debug, Clone)]
pub struct StructuredLog {
    pub level: String,
    pub target: String,
    pub message: String,
    pub timestamp: String,
    pub thread_name: String,
}

/// The resolution of a metrics graph query.
#[derive(Debug, Copy, Clone, PartialEq, Eq, Structural)]
pub enum GraphPeriod {
    Minutes5,
    Hour,
    Day,
}

impl GraphPeriod {
    /// The wire text of this period.
    pub open spec fn spec_text(self) -> Seq<char> {
        match self {
            GraphPeriod::Minutes5 => "minutes5"@,
            GraphPeriod::Hour => "hour"@,
            GraphPeriod::Day => "day"@,
        }
    }

    /// What parsing a wire text yields: the period it names, if any.
    pub open spec fn spec_from_text(s: Seq<char>) -> Option<GraphPeriod> {
        if s == "minutes5"@ {
            Some(GraphPeriod::Minutes5)
        } else if s == "hour"@ {
            Some(GraphPeriod::Hour)
        } else if s == "day"@ {
            Some(GraphPeriod::Day)
        } else {
            None
        }
    }

    /// Renders the period as its wire text.
    pub fn as_text(&self) -> (s: &'static str)
        ensures
            s@ == self.spec_text(),
    {
        match self {
            GraphPeriod::Minutes5 => "minutes5",
            GraphPeriod::Hour => "hour",
            GraphPeriod::Day => "day",
        }
    }

    /// Parses a wire text; returns `None` exactly when the text names no
    /// period.
    pub fn from_text(s: &str) -> (r: Option<GraphPeriod>)
        ensures
            r == GraphPeriod::spec_from_text(s@),
    {
        if crate::text::str_eq(s, "minutes5") {
            Some(GraphPeriod::Minutes5)
        } else if crate::text::str_eq(s, "hour") {
            Some(GraphPeriod::Hour)
        } else if crate::text::str_eq(s, "day") {
            Some(GraphPeriod::Day)
        } else {
            None
        }
    }
}

/// The time window and resolution of a metrics graph query; instants are
/// Unix timestamps in seconds.
#[derive(Debug, Copy, Clone, PartialEq, Eq, Structural)]
pub struct GraphCommonArgs {
    pub from: i64,
    pub to: i64,
    pub period: GraphPeriod,
}

} // verus!
