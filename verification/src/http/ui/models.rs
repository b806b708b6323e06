//! What the pages show of a node.

use vstd::prelude::*;
use vstd::string::*;

verus! {

/// An optional text, in mathematical terms.
pub open spec fn opt_view(text: Option<String>) -> Option<Seq<char>> {
    match text {
        Some(t) => Some(t@),
        None => None,
    }
}

/// Summary info for a node (used in home page list).
#[derive(Debug, Clone)]
pub struct NodeSummary {
    pub node_id: String,
    /// Number of processor cores, as reported.
    pub cpu_cores: Option<String>,
    /// Total memory in bytes, as reported: the text of a number.
    pub memory_total_bytes: Option<String>,
    /// Total memory as the page shows it. It is worked out from
    /// `memory_total_bytes` by whoever renders the page.
    pub memory_total_gb: Option<String>,
    /// Number of temperature sensors, as reported.
    pub temp_sensors: Option<String>,
    /// Timestamp of the node's latest collection cycle.
    pub last_seen: Option<String>,
}

/// A node summary in mathematical terms.
pub struct NodeSummaryView {
    pub node_id: Seq<char>,
    pub cpu_cores: Option<Seq<char>>,
    pub memory_total_bytes: Option<Seq<char>>,
    pub memory_total_gb: Option<Seq<char>>,
    pub temp_sensors: Option<Seq<char>>,
    pub last_seen: Option<Seq<char>>,
}

impl View for NodeSummary {
    type V = NodeSummaryView;

    open spec fn view(&self) -> NodeSummaryView {
        NodeSummaryView {
            node_id: self.node_id@,
            cpu_cores: opt_view(self.cpu_cores),
            memory_total_bytes: opt_view(self.memory_total_bytes),
            memory_total_gb: opt_view(self.memory_total_gb),
            temp_sensors: opt_view(self.temp_sensors),
            last_seen: opt_view(self.last_seen),
        }
    }
}

/// The summary of a node of which nothing is known but its identifier.
pub open spec fn blank_summary(node_id: Seq<char>) -> NodeSummaryView {
    NodeSummaryView {
        node_id,
        cpu_cores: None,
        memory_total_bytes: None,
        memory_total_gb: None,
        temp_sensors: None,
        last_seen: None,
    }
}

impl NodeSummary {
    /// The summary of a node of which nothing is known yet.
    pub fn new(node_id: String) -> (summary: NodeSummary)
        ensures
            summary@ == blank_summary(node_id@),
    {
        NodeSummary {
            node_id,
            cpu_cores: None,
            memory_total_bytes: None,
            memory_total_gb: None,
            temp_sensors: None,
            last_seen: None,
        }
    }
}

/// Detailed info for a single node (used in dashboard).
#[derive(Debug, Clone)]
pub struct NodeDetails {
    pub node_id: String,
    pub hostname: Option<String>,
    pub os_name: Option<String>,
    pub kernel_version: Option<String>,
    pub cpu_arch: Option<String>,
    pub cpu_cores: Option<String>,
    /// Total memory in bytes, as reported: the text of a number.
    pub memory_total_bytes: Option<String>,
    /// Total memory as the page shows it. It is worked out from
    /// `memory_total_bytes` by whoever renders the page.
    pub memory_total_gb: Option<String>,
    pub last_seen: Option<String>,
}

/// The details of a node in mathematical terms.
pub struct NodeDetailsView {
    pub node_id: Seq<char>,
    pub hostname: Option<Seq<char>>,
    pub os_name: Option<Seq<char>>,
    pub kernel_version: Option<Seq<char>>,
    pub cpu_arch: Option<Seq<char>>,
    pub cpu_cores: Option<Seq<char>>,
    pub memory_total_bytes: Option<Seq<char>>,
    pub memory_total_gb: Option<Seq<char>>,
    pub last_seen: Option<Seq<char>>,
}

impl View for NodeDetails {
    type V = NodeDetailsView;

    open spec fn view(&self) -> NodeDetailsView {
        NodeDetailsView {
            node_id: self.node_id@,
            hostname: opt_view(self.hostname),
            os_name: opt_view(self.os_name),
            kernel_version: opt_view(self.kernel_version),
            cpu_arch: opt_view(self.cpu_arch),
            cpu_cores: opt_view(self.cpu_cores),
            memory_total_bytes: opt_view(self.memory_total_bytes),
            memory_total_gb: opt_view(self.memory_total_gb),
            last_seen: opt_view(self.last_seen),
        }
    }
}

/// The details of a node of which nothing is known but its identifier.
pub open spec fn blank_details(node_id: Seq<char>) -> NodeDetailsView {
    NodeDetailsView {
        node_id,
        hostname: None,
        os_name: None,
        kernel_version: None,
        cpu_arch: None,
        cpu_cores: None,
        memory_total_bytes: None,
        memory_total_gb: None,
        last_seen: None,
    }
}

impl NodeDetails {
    /// The details of a node of which nothing is known yet.
    pub fn new(node_id: String) -> (details: NodeDetails)
        ensures
            details@ == blank_details(node_id@),
    {
        NodeDetails {
            node_id,
            hostname: None,
            os_name: None,
            kernel_version: None,
            cpu_arch: None,
            cpu_cores: None,
            memory_total_bytes: None,
            memory_total_gb: None,
            last_seen: None,
        }
    }
}

} // verus!
