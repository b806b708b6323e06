//! The dashboard pages: what is shown of each node, read from its latest
//! snapshot.

use crate::http::ui::models::{
    opt_view, NodeDetails, NodeDetailsView, NodeSummary, NodeSummaryView,
};
use crate::number::{is_float_literal, is_float_text};
use crate::point::{rows_view, MetricDataPoint, PointView};
use crate::store::queries::{
    ids_view, latest_result, names_nodes_of, query_all_node_ids, query_latest_node_metrics,
    strictly_ascending,
};
use crate::text::{str_eq, to_chars};
use vstd::prelude::*;
use vstd::string::*;

verus! {

/// The value of the last metric named `name`, if there is one.
pub open spec fn last_value(metrics: Seq<PointView>, name: Seq<char>) -> Option<Seq<char>>
    decreases metrics.len(),
{
    if metrics.len() == 0 {
        None
    } else if metrics.last().probe_name == name {
        Some(metrics.last().probe_value)
    } else {
        last_value(metrics.drop_last(), name)
    }
}

/// The value of the last metric named `name` whose value is the text of a
/// number, if there is one.
pub open spec fn last_number(metrics: Seq<PointView>, name: Seq<char>) -> Option<Seq<char>>
    decreases metrics.len(),
{
    if metrics.len() == 0 {
        None
    } else if metrics.last().probe_name == name && is_float_literal(metrics.last().probe_value) {
        Some(metrics.last().probe_value)
    } else {
        last_number(metrics.drop_last(), name)
    }
}

/// The timestamp of the first metric that has one, if any has.
pub open spec fn first_timestamp(metrics: Seq<PointView>) -> Option<Seq<char>>
    decreases metrics.len(),
{
    if metrics.len() == 0 {
        None
    } else {
        match first_timestamp(metrics.drop_last()) {
            Some(timestamp) => Some(timestamp),
            None => if metrics.last().timestamp.len() > 0 {
                Some(metrics.last().timestamp)
            } else {
                None
            },
        }
    }
}

/// What the home page shows of a node, given the metrics of its latest
/// snapshot.
pub open spec fn summary_of(node_id: Seq<char>, metrics: Seq<PointView>) -> NodeSummaryView {
    NodeSummaryView {
        node_id,
        cpu_cores: last_value(metrics, "cpu_core_count"@),
        memory_total_bytes: last_number(metrics, "memory_total_bytes"@),
        memory_total_gb: None,
        temp_sensors: last_value(metrics, "temperature_sensor_count"@),
        last_seen: first_timestamp(metrics),
    }
}

/// What the dashboard shows of a node, given the metrics of its latest
/// snapshot.
pub open spec fn details_of(node_id: Seq<char>, metrics: Seq<PointView>) -> NodeDetailsView {
    NodeDetailsView {
        node_id,
        hostname: last_value(metrics, "system_hostname"@),
        os_name: last_value(metrics, "system_os_name"@),
        kernel_version: last_value(metrics, "system_kernel_version"@),
        cpu_arch: last_value(metrics, "system_cpu_arch"@),
        cpu_cores: last_value(metrics, "cpu_core_count"@),
        memory_total_bytes: last_number(metrics, "memory_total_bytes"@),
        memory_total_gb: None,
        last_seen: first_timestamp(metrics),
    }
}

/// The value of the last metric named `name`.
fn find_last_value(metrics: &Vec<MetricDataPoint>, name: &str) -> (value: Option<String>)
    ensures
        opt_view(value) == last_value(rows_view(metrics@), name@),
{
    let ghost all = rows_view(metrics@);
    let mut value: Option<String> = None;
    let mut k: usize = 0;
    assert(all.take(0) =~= Seq::<PointView>::empty());
    while k < metrics.len()
        invariant
            0 <= k <= metrics@.len(),
            all == rows_view(metrics@),
            opt_view(value) == last_value(all.take(k as int), name@),
        decreases metrics@.len() - k,
    {
        let metric = &metrics[k];
        proof {
            assert(all.take(k + 1).drop_last() =~= all.take(k as int));
            assert(all.take(k + 1).last() == metric@);
        }
        if str_eq(metric.probe_name.as_str(), name) {
            value = Some(metric.probe_value.clone());
        }
        k += 1;
    }
    assert(all.take(k as int) =~= all);
    value
}

/// The value of the last metric named `name` whose value is a number.
fn find_last_number(metrics: &Vec<MetricDataPoint>, name: &str) -> (value: Option<String>)
    ensures
        opt_view(value) == last_number(rows_view(metrics@), name@),
{
    let ghost all = rows_view(metrics@);
    let mut value: Option<String> = None;
    let mut k: usize = 0;
    assert(all.take(0) =~= Seq::<PointView>::empty());
    while k < metrics.len()
        invariant
            0 <= k <= metrics@.len(),
            all == rows_view(metrics@),
            opt_view(value) == last_number(all.take(k as int), name@),
        decreases metrics@.len() - k,
    {
        let metric = &metrics[k];
        proof {
            assert(all.take(k + 1).drop_last() =~= all.take(k as int));
            assert(all.take(k + 1).last() == metric@);
        }
        if str_eq(metric.probe_name.as_str(), name) {
            let text = to_chars(metric.probe_value.as_str());
            if is_float_text(&text) {
                value = Some(metric.probe_value.clone());
            }
        }
        k += 1;
    }
    assert(all.take(k as int) =~= all);
    value
}

/// The timestamp of the first metric that has one.
fn find_first_timestamp(metrics: &Vec<MetricDataPoint>) -> (timestamp: Option<String>)
    ensures
        opt_view(timestamp) == first_timestamp(rows_view(metrics@)),
{
    let ghost all = rows_view(metrics@);
    let mut timestamp: Option<String> = None;
    let mut k: usize = 0;
    assert(all.take(0) =~= Seq::<PointView>::empty());
    while k < metrics.len()
        invariant
            0 <= k <= metrics@.len(),
            all == rows_view(metrics@),
            opt_view(timestamp) == first_timestamp(all.take(k as int)),
        decreases metrics@.len() - k,
    {
        let metric = &metrics[k];
        proof {
            assert(all.take(k + 1).drop_last() =~= all.take(k as int));
            assert(all.take(k + 1).last() == metric@);
        }
        if timestamp.is_none() && !metric.timestamp.as_str().is_empty() {
            timestamp = Some(metric.timestamp.clone());
        }
        k += 1;
    }
    assert(all.take(k as int) =~= all);
    timestamp
}

/// Reads from the metrics of a node's latest snapshot what the home page
/// shows of it.
pub fn build_node_summary(node_id: &str, metrics: &Vec<MetricDataPoint>) -> (summary: NodeSummary)
    ensures
        summary@ == summary_of(node_id@, rows_view(metrics@)),
{
    NodeSummary {
        node_id: String::from_str(node_id),
        cpu_cores: find_last_value(metrics, "cpu_core_count"),
        memory_total_bytes: find_last_number(metrics, "memory_total_bytes"),
        memory_total_gb: None,
        temp_sensors: find_last_value(metrics, "temperature_sensor_count"),
        last_seen: find_first_timestamp(metrics),
    }
}

/// Reads from the metrics of a node's latest snapshot what the dashboard
/// shows of it.
pub fn build_node_details(node_id: &str, metrics: &Vec<MetricDataPoint>) -> (details: NodeDetails)
    ensures
        details@ == details_of(node_id@, rows_view(metrics@)),
{
    NodeDetails {
        node_id: String::from_str(node_id),
        hostname: find_last_value(metrics, "system_hostname"),
        os_name: find_last_value(metrics, "system_os_name"),
        kernel_version: find_last_value(metrics, "system_kernel_version"),
        cpu_arch: find_last_value(metrics, "system_cpu_arch"),
        cpu_cores: find_last_value(metrics, "cpu_core_count"),
        memory_total_bytes: find_last_number(metrics, "memory_total_bytes"),
        memory_total_gb: None,
        last_seen: find_first_timestamp(metrics),
    }
}

/// Why the rows of a shard could not be had.
#[derive(Debug, Clone, Copy, PartialEq, Eq, Structural)]
pub enum ReadFailure {
    /// The shard could not be opened.
    Connect,
    /// The shard was opened, but reading it failed.
    Query,
}

/// A page that reports a failure, by its title and message.
#[derive(Debug, Clone)]
pub struct Failure {
    pub title: String,
    pub message: String,
}

/// A failure in mathematical terms.
pub struct FailureView {
    pub title: Seq<char>,
    pub message: Seq<char>,
}

impl View for Failure {
    type V = FailureView;

    open spec fn view(&self) -> FailureView {
        FailureView { title: self.title@, message: self.message@ }
    }
}

/// The summaries of a list, in mathematical terms.
pub open spec fn summaries_view(nodes: Seq<NodeSummary>) -> Seq<NodeSummaryView> {
    nodes.map_values(|n: NodeSummary| n@)
}

/// The identifiers of the nodes of a list of summaries.
pub open spec fn summary_ids(nodes: Seq<NodeSummaryView>) -> Seq<Seq<char>> {
    nodes.map_values(|n: NodeSummaryView| n.node_id)
}

/// `nodes` is the node list of the home page for the rows of a shard: one
/// summary for each node that has a row, in ascending order of identifier,
/// each read from the node's latest snapshot.
pub open spec fn is_node_list(nodes: Seq<NodeSummaryView>, rows: Seq<PointView>) -> bool {
    &&& strictly_ascending(summary_ids(nodes))
    &&& names_nodes_of(summary_ids(nodes), rows)
    &&& forall|i: int|
        0 <= i < nodes.len() ==> #[trigger] nodes[i] == summary_of(
            nodes[i].node_id,
            latest_result(rows, nodes[i].node_id),
        )
}

/// The failure that the home page reports.
pub open spec fn home_failure(failure: ReadFailure) -> FailureView {
    match failure {
        ReadFailure::Connect => FailureView {
            title: "Database Error"@,
            message: "Failed to connect to database"@,
        },
        ReadFailure::Query => FailureView {
            title: "Query Error"@,
            message: "Failed to load node list"@,
        },
    }
}

/// The home page: the list of known nodes, or the failure to report where
/// the shard could not be read.
pub fn handle_home(rows: Result<&Vec<MetricDataPoint>, ReadFailure>) -> (reply: Result<
    Vec<NodeSummary>,
    Failure,
>)
    ensures
        match rows {
            Ok(shard) => reply is Ok && is_node_list(
                summaries_view(reply->Ok_0@),
                rows_view(shard@),
            ),
            Err(failure) => reply is Err && reply->Err_0@ == home_failure(failure),
        },
{
    match rows {
        Err(ReadFailure::Connect) => Err(
            Failure {
                title: String::from_str("Database Error"),
                message: String::from_str("Failed to connect to database"),
            },
        ),
        Err(ReadFailure::Query) => Err(
            Failure {
                title: String::from_str("Query Error"),
                message: String::from_str("Failed to load node list"),
            },
        ),
        Ok(shard) => {
            let ghost all = rows_view(shard@);
            let node_ids = query_all_node_ids(shard);
            let mut nodes: Vec<NodeSummary> = Vec::new();
            let mut i: usize = 0;
            while i < node_ids.len()
                invariant
                    0 <= i <= node_ids@.len(),
                    all == rows_view(shard@),
                    nodes@.len() == i,
                    forall|k: int|
                        0 <= k < i ==> #[trigger] summaries_view(nodes@)[k] == summary_of(
                            ids_view(node_ids@)[k],
                            latest_result(all, ids_view(node_ids@)[k]),
                        ),
                decreases node_ids@.len() - i,
            {
                let node_id = node_ids[i].as_str();
                let metrics = query_latest_node_metrics(shard, node_id);
                let summary = build_node_summary(node_id, &metrics);
                proof {
                    assert(summaries_view(nodes@.push(summary)) =~= summaries_view(nodes@).push(
                        summary@,
                    ));
                    assert(ids_view(node_ids@)[i as int] == node_id@);
                }
                nodes.push(summary);
                i += 1;
            }
            proof {
                let listed = summaries_view(nodes@);
                assert(summary_ids(listed) =~= ids_view(node_ids@));
            }
            Ok(nodes)
        },
    }
}

/// The failure that the dashboard of `node_id` reports where the node has
/// no data.
pub open spec fn no_data_failure(node_id: Seq<char>) -> FailureView {
    FailureView { title: "Not Found"@, message: "No data found for node "@ + node_id }
}

/// The failure that the dashboard reports where the shard could not be
/// read.
pub open spec fn dashboard_failure(failure: ReadFailure) -> FailureView {
    match failure {
        ReadFailure::Connect => FailureView {
            title: "Database Error"@,
            message: "Failed to connect to database"@,
        },
        ReadFailure::Query => FailureView {
            title: "Query Error"@,
            message: "Failed to load node metrics"@,
        },
    }
}

/// The dashboard of one node: its details, read from its latest snapshot,
/// or the failure to report where the shard could not be read or holds
/// nothing of the node.
pub fn handle_node_dashboard(node_id: &str, rows: Result<&Vec<MetricDataPoint>, ReadFailure>) -> (reply:
    Result<NodeDetails, Failure>)
    ensures
        match rows {
            Ok(shard) => if latest_result(rows_view(shard@), node_id@).len() == 0 {
                reply is Err && reply->Err_0@ == no_data_failure(node_id@)
            } else {
                reply is Ok && reply->Ok_0@ == details_of(
                    node_id@,
                    latest_result(rows_view(shard@), node_id@),
                )
            },
            Err(failure) => reply is Err && reply->Err_0@ == dashboard_failure(failure),
        },
{
    match rows {
        Err(ReadFailure::Connect) => Err(
            Failure {
                title: String::from_str("Database Error"),
                message: String::from_str("Failed to connect to database"),
            },
        ),
        Err(ReadFailure::Query) => Err(
            Failure {
                title: String::from_str("Query Error"),
                message: String::from_str("Failed to load node metrics"),
            },
        ),
        Ok(shard) => {
            let metrics = query_latest_node_metrics(shard, node_id);
            if metrics.len() == 0 {
                let mut message = String::from_str("No data found for node ");
                message.append(node_id);
                Err(Failure { title: String::from_str("Not Found"), message })
            } else {
                Ok(build_node_details(node_id, &metrics))
            }
        },
    }
}

} // verus!
