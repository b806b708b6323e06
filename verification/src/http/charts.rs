//! The charts of a node: what each chart shows, given the metrics that the
//! query for it returned.

use crate::charts::{series_view, ChartData, ChartDataView, TimeSeries, TimeSeriesView};
use crate::grouping::{
    group_metrics_by_index, groups_view, is_grouping, point_of, points_view, read_samples,
    samples_of, samples_view, Sample, SampleView, Series, SeriesPoint, SeriesPointView, SeriesView,
};
use crate::http::ui::helpers::{can_shorten, shorten_uuid, shortened};
use crate::number::{is_float_literal, is_float_text};
use crate::point::{rows_view, MetricDataPoint, PointView};
use crate::text::to_chars;
use vstd::prelude::*;
use vstd::string::*;

verus! {

/// Bytes in a gigabyte, as memory is drawn.
pub const BYTES_PER_GB: u64 = 1073741824;

/// The series of a chart that draws the groups of an indexed metric: one
/// for each group, under its label, with its points.
pub open spec fn group_series(groups: Seq<SeriesView>, unit: Seq<char>) -> Seq<TimeSeriesView> {
    groups.map_values(
        |g: SeriesView| TimeSeriesView { name: g.label, unit, divisor: 1, points: g.points },
    )
}

/// What the chart of an indexed metric shows, given the query's result.
pub struct GroupChart {
    /// The prefix behind which the names hold the index.
    pub prefix: Seq<char>,
    /// What the title says before the node.
    pub title: Seq<char>,
    pub y_label: Seq<char>,
    pub unit: Seq<char>,
    /// The message where the query returned nothing.
    pub no_data: Seq<char>,
    /// The message where nothing of what the query returned could be
    /// grouped.
    pub no_groups: Seq<char>,
}

/// `data` is the chart that draws `groups`, the groups of `rows`.
pub open spec fn draws_groups(
    data: ChartDataView,
    chart: GroupChart,
    node_id: Seq<char>,
    rows: Seq<PointView>,
    groups: Seq<SeriesView>,
) -> bool {
    &&& is_grouping(groups, samples_of(rows), chart.prefix)
    &&& groups.len() > 0
    &&& data == (ChartDataView {
        title: chart.title + shortened(node_id),
        x_label: "Time"@,
        y_label: chart.y_label,
        series: group_series(groups, chart.unit),
    })
}

/// `reply` is the answer for the chart of an indexed metric of `node_id`:
/// the chart of the groups of the metrics, or the message of the error that
/// stands in its place.
pub open spec fn is_group_chart(
    reply: Result<ChartDataView, Seq<char>>,
    chart: GroupChart,
    node_id: Seq<char>,
    metrics: Option<Seq<PointView>>,
) -> bool {
    if metrics is None {
        reply == Err::<ChartDataView, Seq<char>>("Query failed"@)
    } else if metrics->0.len() == 0 {
        reply == Err::<ChartDataView, Seq<char>>(chart.no_data)
    } else if reply is Err {
        &&& reply->Err_0 == chart.no_groups
        &&& is_grouping(Seq::empty(), samples_of(metrics->0), chart.prefix)
    } else {
        exists|groups: Seq<SeriesView>|
            draws_groups(reply->Ok_0, chart, node_id, metrics->0, groups)
    }
}

/// Whether the chart of a node can be titled: its identifier can be
/// shortened, or the query returned nothing to draw.
pub open spec fn can_title(node_id: Seq<char>, metrics: Option<Seq<PointView>>) -> bool {
    ||| can_shorten(node_id)
    ||| metrics is None
    ||| metrics->0.len() == 0
}

/// The rows that a query returned, in mathematical terms.
pub open spec fn result_view(metrics: Option<Vec<MetricDataPoint>>) -> Option<Seq<PointView>> {
    match metrics {
        Some(rows) => Some(rows_view(rows@)),
        None => None,
    }
}

/// The answer, in mathematical terms.
pub open spec fn reply_view(reply: Result<ChartData, String>) -> Result<ChartDataView, Seq<char>> {
    match reply {
        Ok(data) => Ok(data@),
        Err(message) => Err(message@),
    }
}

/// Makes the series of a chart from the groups of a metric.
fn series_of_groups(groups: Vec<Series>, unit: &str) -> (series: Vec<TimeSeries>)
    ensures
        series_view(series@) == group_series(groups_view(groups@), unit@),
{
    let ghost wanted = group_series(groups_view(groups@), unit@);
    let mut groups = groups;
    let mut series: Vec<TimeSeries> = Vec::new();
    // The groups are taken from the back, so the series are put in front.
    while groups.len() > 0
        invariant
            groups@.len() <= wanted.len(),
            series@.len() == wanted.len() - groups@.len(),
            group_series(groups_view(groups@), unit@) == wanted.take(groups@.len() as int),
            series_view(series@) == wanted.skip(groups@.len() as int),
        decreases groups@.len(),
    {
        let ghost before = groups@;
        let ghost built = series_view(series@);
        match groups.pop() {
            Some(group) => {
                let one = TimeSeries {
                    name: group.label,
                    unit: String::from_str(unit),
                    divisor: 1,
                    points: group.points,
                };
                proof {
                    let n = groups@.len() as int;
                    assert(before[n] == group);
                    assert(groups_view(before)[n] == group@);
                    assert(wanted.take(n + 1)[n] == one@);
                    assert(group_series(groups_view(groups@), unit@) =~= wanted.take(n));
                    assert(series_view(series@.insert(0, one)) =~= seq![one@] + built);
                    assert(seq![one@] + wanted.skip(n + 1) =~= wanted.skip(n));
                }
                series.insert(0, one);
            },
            None => {},
        }
    }
    proof {
        assert(wanted.skip(0) =~= wanted);
    }
    series
}

/// The answer for the chart of an indexed metric.
fn group_chart(
    node_id: &str,
    metrics: Option<Vec<MetricDataPoint>>,
    prefix: &str,
    title: &str,
    y_label: &str,
    unit: &str,
    no_data: &str,
    no_groups: &str,
) -> (reply: Result<ChartData, String>)
    requires
        can_title(node_id@, result_view(metrics)),
    ensures
        is_group_chart(
            reply_view(reply),
            GroupChart {
                prefix: prefix@,
                title: title@,
                y_label: y_label@,
                unit: unit@,
                no_data: no_data@,
                no_groups: no_groups@,
            },
            node_id@,
            result_view(metrics),
        ),
{
    match metrics {
        None => Err(String::from_str("Query failed")),
        Some(rows) => {
            if rows.len() == 0 {
                return Err(String::from_str(no_data));
            }
            let groups = group_metrics_by_index(&rows, prefix);
            if groups.len() == 0 {
                assert(groups_view(groups@) =~= Seq::<SeriesView>::empty());
                return Err(String::from_str(no_groups));
            }
            let ghost grouped = groups_view(groups@);
            let ghost chart = GroupChart {
                prefix: prefix@,
                title: title@,
                y_label: y_label@,
                unit: unit@,
                no_data: no_data@,
                no_groups: no_groups@,
            };
            let short_id = shorten_uuid(node_id);
            let mut full_title = String::from_str(title);
            full_title.append(short_id.as_str());
            let series = series_of_groups(groups, unit);
            let data = ChartData {
                title: full_title,
                x_label: String::from_str("Time"),
                y_label: String::from_str(y_label),
                series,
            };
            let reply: Result<ChartData, String> = Ok(data);
            proof {
                assert(reply_view(reply)->Ok_0 == data@);
                assert(draws_groups(data@, chart, node_id@, rows_view(rows@), grouped));
            }
            reply
        },
    }
}

/// What the CPU chart shows.
pub open spec fn cpu_chart() -> GroupChart {
    GroupChart {
        prefix: "cpu_core_"@,
        title: "CPU Usage - Node "@,
        y_label: "Usage (%)"@,
        unit: "%"@,
        no_data: "No CPU data available"@,
        no_groups: "No CPU data found"@,
    }
}

/// Handle CPU chart request for a specific node: one series for each core,
/// from the metrics that the query for `cpu_core_%_usage_percent` returned,
/// or nothing where the query failed.
pub fn handle_cpu_chart(node_id: &str, metrics: Option<Vec<MetricDataPoint>>) -> (reply: Result<
    ChartData,
    String,
>)
    requires
        can_title(node_id@, result_view(metrics)),
    ensures
        is_group_chart(reply_view(reply), cpu_chart(), node_id@, result_view(metrics)),
{
    group_chart(
        node_id,
        metrics,
        "cpu_core_",
        "CPU Usage - Node ",
        "Usage (%)",
        "%",
        "No CPU data available",
        "No CPU data found",
    )
}

/// What the temperature chart shows.
pub open spec fn temperature_chart() -> GroupChart {
    GroupChart {
        prefix: "temperature_sensor_"@,
        title: "Temperature - Node "@,
        y_label: "Temperature (\u{B0}C)"@,
        unit: "\u{B0}C"@,
        no_data: "No temperature data available"@,
        no_groups: "No temperature data found"@,
    }
}

/// Handle temperature chart request for a specific node: one series for
/// each sensor, from the metrics that the query for
/// `temperature_sensor_%_celsius` returned, or nothing where the query
/// failed.
pub fn handle_temperature_chart(node_id: &str, metrics: Option<Vec<MetricDataPoint>>) -> (reply:
    Result<ChartData, String>)
    requires
        can_title(node_id@, result_view(metrics)),
    ensures
        is_group_chart(reply_view(reply), temperature_chart(), node_id@, result_view(metrics)),
{
    group_chart(
        node_id,
        metrics,
        "temperature_sensor_",
        "Temperature - Node ",
        "Temperature (\u{B0}C)",
        "\u{B0}C",
        "No temperature data available",
        "No temperature data found",
    )
}

/// The samples that can be drawn: the timestamp was read and the value is
/// the text of a number.
pub open spec fn drawable() -> spec_fn(SampleView) -> bool {
    |sample: SampleView| sample.timestamp is Ok && is_float_literal(sample.probe_value)
}

/// The points of the samples that can be drawn, in the order of the
/// samples.
pub open spec fn drawn_points(samples: Seq<SampleView>) -> Seq<SeriesPointView> {
    samples.filter(drawable()).map_values(|s: SampleView| point_of(s))
}

/// Takes from samples the points that can be drawn.
pub fn plot_points(samples: &Vec<Sample>) -> (points: Vec<SeriesPoint>)
    ensures
        points_view(points@) == drawn_points(samples_view(samples@)),
{
    let ghost all = samples_view(samples@);
    let mut points: Vec<SeriesPoint> = Vec::new();
    let mut k: usize = 0;
    proof {
        reveal(Seq::filter);
        assert(all.take(0) =~= Seq::<SampleView>::empty());
        assert(points_view(points@) =~= drawn_points(all.take(0)));
    }
    while k < samples.len()
        invariant
            0 <= k <= samples@.len(),
            all == samples_view(samples@),
            points_view(points@) == drawn_points(all.take(k as int)),
        decreases samples@.len() - k,
    {
        let sample = &samples[k];
        proof {
            assert(all.take(k + 1) =~= all.take(k as int).push(sample@));
            all.take(k as int).lemma_filter_push(sample@, drawable());
        }
        match sample.timestamp {
            Ok(seconds) => {
                let value = to_chars(sample.probe_value.as_str());
                if is_float_text(&value) {
                    let point = SeriesPoint { timestamp: seconds, value: sample.probe_value.clone() };
                    proof {
                        let kept = all.take(k as int).filter(drawable());
                        assert(point@ == point_of(sample@));
                        assert(points_view(points@.push(point)) =~= points_view(points@).push(
                            point@,
                        ));
                        assert(kept.push(sample@).map_values(|s: SampleView| point_of(s))
                            =~= kept.map_values(|s: SampleView| point_of(s)).push(
                            point_of(sample@),
                        ));
                    }
                    points.push(point);
                }
            },
            Err(_) => {},
        }
        k += 1;
    }
    assert(all.take(k as int) =~= all);
    points
}

/// A series of memory sizes: bytes as stored, gigabytes as drawn.
pub open spec fn memory_series(name: Seq<char>, rows: Seq<PointView>) -> TimeSeriesView {
    TimeSeriesView {
        name,
        unit: "GB"@,
        divisor: BYTES_PER_GB,
        points: drawn_points(samples_of(rows)),
    }
}

/// The series of the memory chart: the memory in use and, where the query
/// for it returned anything, the memory in all.
pub open spec fn memory_chart_series(used: Seq<PointView>, total: Seq<PointView>) -> Seq<
    TimeSeriesView,
> {
    if total.len() == 0 {
        seq![memory_series("Used Memory"@, used)]
    } else {
        seq![memory_series("Used Memory"@, used), memory_series("Total Memory"@, total)]
    }
}

/// The answer for the memory chart of `node_id`.
pub open spec fn memory_chart(
    node_id: Seq<char>,
    used: Option<Seq<PointView>>,
    total: Option<Seq<PointView>>,
) -> Result<ChartDataView, Seq<char>> {
    if used is None || total is None {
        Err("Query failed"@)
    } else if used->0.len() == 0 {
        Err("No memory data available"@)
    } else {
        Ok(
            ChartDataView {
                title: "Memory Usage - Node "@ + shortened(node_id),
                x_label: "Time"@,
                y_label: "Memory (GB)"@,
                series: memory_chart_series(used->0, total->0),
            },
        )
    }
}

/// Makes a series of memory sizes.
fn memory_series_of(name: &str, rows: &Vec<MetricDataPoint>) -> (series: TimeSeries)
    ensures
        series@ == memory_series(name@, rows_view(rows@)),
{
    let samples = read_samples(rows);
    TimeSeries {
        name: String::from_str(name),
        unit: String::from_str("GB"),
        divisor: BYTES_PER_GB,
        points: plot_points(&samples),
    }
}

/// Handle memory chart request for a specific node, from the metrics that
/// the queries for `memory_used_bytes` and `memory_total_bytes` returned,
/// or nothing where a query failed.
pub fn handle_memory_chart(
    node_id: &str,
    used_metrics: Option<Vec<MetricDataPoint>>,
    total_metrics: Option<Vec<MetricDataPoint>>,
) -> (reply: Result<ChartData, String>)
    requires
        can_title(node_id@, result_view(used_metrics)) || total_metrics is None,
    ensures
        reply_view(reply) == memory_chart(
            node_id@,
            result_view(used_metrics),
            result_view(total_metrics),
        ),
{
    match (used_metrics, total_metrics) {
        (Some(used), Some(total)) => {
            if used.len() == 0 {
                return Err(String::from_str("No memory data available"));
            }
            let short_id = shorten_uuid(node_id);
            let mut title = String::from_str("Memory Usage - Node ");
            title.append(short_id.as_str());
            let mut series: Vec<TimeSeries> = Vec::new();
            let used_series = memory_series_of("Used Memory", &used);
            let ghost first = used_series@;
            series.push(used_series);
            if total.len() > 0 {
                let total_series = memory_series_of("Total Memory", &total);
                let ghost second = total_series@;
                series.push(total_series);
                assert(series_view(series@) =~= seq![first, second]);
            } else {
                assert(series_view(series@) =~= seq![first]);
            }
            Ok(
                ChartData {
                    title,
                    x_label: String::from_str("Time"),
                    y_label: String::from_str("Memory (GB)"),
                    series,
                },
            )
        },
        _ => Err(String::from_str("Query failed")),
    }
}

} // verus!
