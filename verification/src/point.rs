//! The data point: the atomic unit of telemetry, as a node produces it and
//! as the collector stores it.

use vstd::prelude::*;
use vstd::string::*;

verus! {

/// A data point in mathematical terms: its five texts.
pub struct PointView {
    pub node_id: Seq<char>,
    pub timestamp: Seq<char>,
    pub probe_type: Seq<char>,
    pub probe_name: Seq<char>,
    pub probe_value: Seq<char>,
}

impl PointView {
    /// All five fields are present: none is empty.
    pub open spec fn is_complete(self) -> bool {
        &&& self.node_id.len() > 0
        &&& self.timestamp.len() > 0
        &&& self.probe_type.len() > 0
        &&& self.probe_name.len() > 0
        &&& self.probe_value.len() > 0
    }
}

/// One measurement, as a probe reports it and as it travels to the
/// collector. Every field is text; the value is parsed by whoever reads it.
#[derive(Debug, Clone, PartialEq, Eq)]
pub struct ProbeDataPoint {
    /// Identifier of the node that took the measurement.
    pub node_id: String,
    /// RFC 3339 time of the collection cycle, in UTC.
    pub timestamp: String,
    /// Source category, such as `sysinfo` or `procfs`.
    pub probe_type: String,
    /// Metric identifier; an indexed metric holds its index.
    pub probe_name: String,
    /// The value, as text.
    pub probe_value: String,
}

impl View for ProbeDataPoint {
    type V = PointView;

    open spec fn view(&self) -> PointView {
        PointView {
            node_id: self.node_id@,
            timestamp: self.timestamp@,
            probe_type: self.probe_type@,
            probe_name: self.probe_name@,
            probe_value: self.probe_value@,
        }
    }
}

impl ProbeDataPoint {
    /// A copy of the point.
    pub fn duplicate(&self) -> (copy: ProbeDataPoint)
        ensures
            copy@ == self@,
    {
        ProbeDataPoint {
            node_id: self.node_id.clone(),
            timestamp: self.timestamp.clone(),
            probe_type: self.probe_type.clone(),
            probe_name: self.probe_name.clone(),
            probe_value: self.probe_value.clone(),
        }
    }

    /// The row that storing the point adds to a shard.
    pub fn to_row(&self) -> (row: MetricDataPoint)
        ensures
            row@ == self@,
    {
        MetricDataPoint {
            node_id: self.node_id.clone(),
            timestamp: self.timestamp.clone(),
            probe_type: self.probe_type.clone(),
            probe_name: self.probe_name.clone(),
            probe_value: self.probe_value.clone(),
        }
    }
}

/// A single metric data point, as read back from a shard.
#[derive(Debug, Clone)]
pub struct MetricDataPoint {
    pub node_id: String,
    pub timestamp: String,
    pub probe_type: String,
    pub probe_name: String,
    pub probe_value: String,
}

impl View for MetricDataPoint {
    type V = PointView;

    open spec fn view(&self) -> PointView {
        PointView {
            node_id: self.node_id@,
            timestamp: self.timestamp@,
            probe_type: self.probe_type@,
            probe_name: self.probe_name@,
            probe_value: self.probe_value@,
        }
    }
}

impl MetricDataPoint {
    /// A copy of the row.
    pub fn duplicate(&self) -> (copy: MetricDataPoint)
        ensures
            copy@ == self@,
    {
        MetricDataPoint {
            node_id: self.node_id.clone(),
            timestamp: self.timestamp.clone(),
            probe_type: self.probe_type.clone(),
            probe_name: self.probe_name.clone(),
            probe_value: self.probe_value.clone(),
        }
    }
}

/// The points of a batch, in mathematical terms.
pub open spec fn batch_view(points: Seq<ProbeDataPoint>) -> Seq<PointView> {
    points.map_values(|p: ProbeDataPoint| p@)
}

/// The rows of a shard or of a result, in mathematical terms.
pub open spec fn rows_view(rows: Seq<MetricDataPoint>) -> Seq<PointView> {
    rows.map_values(|r: MetricDataPoint| r@)
}

} // verus!
