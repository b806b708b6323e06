//! Multi-series grouping: the points of an indexed metric, one series for
//! each index.
//!
//! An indexed metric holds its index in its name, between a fixed prefix
//! and the next underscore, as in `cpu_core_3_usage_percent`. Grouping
//! reads that index and collects, for each index, the timestamp and the
//! value of every point. A point whose name holds no index, whose timestamp
//! is not a timestamp, or whose value is not a number is left out; the
//! others are grouped all the same.

use crate::number::{is_float_literal, is_float_text, parse_u32, parse_u32_spec};
use crate::point::{rows_view, MetricDataPoint, PointView};
use crate::text::{contains, decimal, is_prefix, occurs_in, starts_with, to_chars, u64_to_string};
use crate::timestamp::{parse_timestamp, rfc3339_unix_seconds};
use vstd::prelude::*;
use vstd::string::*;

verus! {

/// The end of the part of `s` that starts at `from` and runs up to the next
/// underscore, or to the end of `s`.
pub open spec fn segment_end(s: Seq<char>, from: int) -> int
    decreases s.len() - from,
{
    if 0 <= from < s.len() && s[from] != '_' {
        segment_end(s, from + 1)
    } else {
        from
    }
}

/// The index that a metric name holds behind `prefix`: the numeral between
/// the prefix and the next underscore. A name that does not begin with the
/// prefix, or that holds no numeral there, has none.
pub open spec fn index_of(name: Seq<char>, prefix: Seq<char>) -> Option<u32> {
    if is_prefix(prefix, name) {
        parse_u32_spec(
            name.subrange(prefix.len() as int, segment_end(name, prefix.len() as int)),
        )
    } else {
        None
    }
}

/// The end of the part of `chars` that starts at `from` and runs up to the
/// next underscore.
fn scan_segment(chars: &Vec<char>, from: usize) -> (end: usize)
    requires
        from <= chars@.len(),
    ensures
        end == segment_end(chars@, from as int),
        from <= end <= chars@.len(),
{
    let mut i: usize = from;
    while i < chars.len() && chars[i] != '_'
        invariant
            from <= i <= chars@.len(),
            segment_end(chars@, from as int) == segment_end(chars@, i as int),
        decreases chars@.len() - i,
    {
        i += 1;
    }
    i
}

/// Reads the index that a metric name holds behind `prefix`.
pub fn extract_index(name: &str, prefix: &str) -> (index: Option<u32>)
    ensures
        index == index_of(name@, prefix@),
{
    let name_chars = to_chars(name);
    let prefix_chars = to_chars(prefix);
    if !starts_with(&name_chars, &prefix_chars) {
        return None;
    }
    let from: usize = prefix_chars.len();
    let end: usize = scan_segment(&name_chars, from);
    parse_u32(&name_chars, from, end)
}

/// Extract core number from metric name like `cpu_core_0_usage_percent`.
pub fn extract_core_number(metric_name: &str) -> (core: Option<u32>)
    ensures
        core == index_of(metric_name@, "cpu_core_"@),
{
    extract_index(metric_name, "cpu_core_")
}

/// Extract sensor number from metric name like
/// `temperature_sensor_0_celsius`.
pub fn extract_sensor_number(metric_name: &str) -> (sensor: Option<u32>)
    ensures
        sensor == index_of(metric_name@, "temperature_sensor_"@),
{
    extract_index(metric_name, "temperature_sensor_")
}

/// The label of the series with index `index`: `Core 3` for a processor
/// metric, `Sensor 3` for a sensor metric, `#3` for any other.
pub open spec fn label_text(prefix: Seq<char>, index: u32) -> Seq<char> {
    if occurs_in(prefix, "cpu"@) {
        "Core "@ + decimal(index as nat)
    } else if occurs_in(prefix, "sensor"@) {
        "Sensor "@ + decimal(index as nat)
    } else {
        "#"@ + decimal(index as nat)
    }
}

/// Writes the label of the series with index `index`.
pub fn series_label(prefix: &str, index: u32) -> (label: String)
    ensures
        label@ == label_text(prefix@, index),
{
    let prefix_chars = to_chars(prefix);
    let cpu = to_chars("cpu");
    let sensor = to_chars("sensor");
    let mut label = if contains(&prefix_chars, &cpu) {
        String::from_str("Core ")
    } else if contains(&prefix_chars, &sensor) {
        String::from_str("Sensor ")
    } else {
        String::from_str("#")
    };
    let numeral = u64_to_string(index as u64);
    label.append(numeral.as_str());
    label
}

/// A point of a metric with its timestamp read: seconds of Unix time, or an
/// error where the text was no timestamp.
pub struct Sample {
    pub probe_name: String,
    pub timestamp: Result<i64, ()>,
    pub probe_value: String,
}

/// A sample in mathematical terms.
pub struct SampleView {
    pub probe_name: Seq<char>,
    pub timestamp: Result<i64, ()>,
    pub probe_value: Seq<char>,
}

impl View for Sample {
    type V = SampleView;

    open spec fn view(&self) -> SampleView {
        SampleView {
            probe_name: self.probe_name@,
            timestamp: self.timestamp,
            probe_value: self.probe_value@,
        }
    }
}

/// One point of a series: when it was taken, in seconds of Unix time, and
/// its value, the text of a number.
#[derive(Debug, Clone)]
pub struct SeriesPoint {
    pub timestamp: i64,
    pub value: String,
}

/// A point of a series in mathematical terms.
pub struct SeriesPointView {
    pub timestamp: i64,
    pub value: Seq<char>,
}

impl View for SeriesPoint {
    type V = SeriesPointView;

    open spec fn view(&self) -> SeriesPointView {
        SeriesPointView { timestamp: self.timestamp, value: self.value@ }
    }
}

/// The points of one index, under the label of that index.
#[derive(Debug, Clone)]
pub struct Series {
    pub index: u32,
    pub label: String,
    pub points: Vec<SeriesPoint>,
}

/// A series in mathematical terms.
pub struct SeriesView {
    pub index: u32,
    pub label: Seq<char>,
    pub points: Seq<SeriesPointView>,
}

/// The points of a series, in mathematical terms.
pub open spec fn points_view(points: Seq<SeriesPoint>) -> Seq<SeriesPointView> {
    points.map_values(|p: SeriesPoint| p@)
}

impl View for Series {
    type V = SeriesView;

    open spec fn view(&self) -> SeriesView {
        SeriesView { index: self.index, label: self.label@, points: points_view(self.points@) }
    }
}

/// The samples of a list, in mathematical terms.
pub open spec fn samples_view(samples: Seq<Sample>) -> Seq<SampleView> {
    samples.map_values(|s: Sample| s@)
}

/// The series of a list, in mathematical terms.
pub open spec fn groups_view(groups: Seq<Series>) -> Seq<SeriesView> {
    groups.map_values(|g: Series| g@)
}

/// The index of the series that a sample belongs to. A sample whose name
/// holds no index, whose timestamp could not be read, or whose value is not
/// the text of a number belongs to none.
pub open spec fn sample_key(sample: SampleView, prefix: Seq<char>) -> Option<u32> {
    if sample.timestamp is Ok && is_float_literal(sample.probe_value) {
        index_of(sample.probe_name, prefix)
    } else {
        None
    }
}

/// The samples that belong to the series with index `index`.
pub open spec fn in_series(prefix: Seq<char>, index: u32) -> spec_fn(SampleView) -> bool {
    |sample: SampleView| sample_key(sample, prefix) == Some(index)
}

/// The point that a sample gives to its series.
pub open spec fn point_of(sample: SampleView) -> SeriesPointView {
    SeriesPointView {
        timestamp: match sample.timestamp {
            Ok(seconds) => seconds,
            Err(_) => 0,
        },
        value: sample.probe_value,
    }
}

/// The points of the series with index `index`, in the order of the
/// samples.
pub open spec fn series_points(samples: Seq<SampleView>, prefix: Seq<char>, index: u32) -> Seq<
    SeriesPointView,
> {
    samples.filter(in_series(prefix, index)).map_values(|s: SampleView| point_of(s))
}

/// `groups` is the grouping of `samples`: one series for each index that a
/// sample belongs to, in ascending order of index, each under its label and
/// with the points of its samples.
pub open spec fn is_grouping(groups: Seq<SeriesView>, samples: Seq<SampleView>, prefix: Seq<char>) -> bool {
    &&& forall|a: int, b: int|
        0 <= a < b < groups.len() ==> (#[trigger] groups[a]).index < (#[trigger] groups[b]).index
    &&& forall|g: int|
        0 <= g < groups.len() ==> {
            &&& (#[trigger] groups[g]).label == label_text(prefix, groups[g].index)
            &&& groups[g].points == series_points(samples, prefix, groups[g].index)
            &&& groups[g].points.len() > 0
        }
    &&& forall|k: int|
        0 <= k < samples.len() && sample_key(#[trigger] samples[k], prefix) is Some
            ==> exists|g: int|
            0 <= g < groups.len() && Some((#[trigger] groups[g]).index) == sample_key(
                samples[k],
                prefix,
            )
}

/// The indices of the series of a list.
pub open spec fn group_indices(groups: Seq<SeriesView>) -> Seq<u32> {
    groups.map_values(|g: SeriesView| g.index)
}

/// Whether a grouping of `samples` has a series with index `index`: it has
/// one exactly where a sample belongs to it.
proof fn lemma_grouping_indices(
    groups: Seq<SeriesView>,
    samples: Seq<SampleView>,
    prefix: Seq<char>,
    index: u32,
)
    requires
        is_grouping(groups, samples, prefix),
    ensures
        group_indices(groups).contains(index) <==> exists|k: int|
            0 <= k < samples.len() && sample_key(#[trigger] samples[k], prefix) == Some(index),
{
    let indices = group_indices(groups);
    let wanted = in_series(prefix, index);
    if indices.contains(index) {
        let g = choose|g: int| 0 <= g < indices.len() && indices[g] == index;
        assert(groups[g].index == index);
        let kept = samples.filter(wanted);
        assert(kept.len() > 0);
        samples.lemma_filter_pred(wanted, 0);
        assert(kept.contains(kept[0]));
        samples.lemma_filter_contains_rev(wanted, kept[0]);
        let k = choose|k: int| 0 <= k < samples.len() && samples[k] == kept[0];
        assert(sample_key(samples[k], prefix) == Some(index));
    }
    if exists|k: int|
        0 <= k < samples.len() && sample_key(#[trigger] samples[k], prefix) == Some(index) {
        let k = choose|k: int|
            0 <= k < samples.len() && sample_key(#[trigger] samples[k], prefix) == Some(index);
        let g = choose|g: int|
            0 <= g < groups.len() && Some((#[trigger] groups[g]).index) == sample_key(
                samples[k],
                prefix,
            );
        assert(indices[g] == index);
    }
}

/// There is one grouping of given samples: two lists of series that are
/// each a grouping of the same samples are the same list.
pub proof fn lemma_grouping_unique(
    first: Seq<SeriesView>,
    second: Seq<SeriesView>,
    samples: Seq<SampleView>,
    prefix: Seq<char>,
)
    requires
        is_grouping(first, samples, prefix),
        is_grouping(second, samples, prefix),
    ensures
        first == second,
{
    broadcast use vstd::seq_lib::group_to_multiset_ensures;

    let order = |a: u32, b: u32| a <= b;
    let one = group_indices(first);
    let two = group_indices(second);
    assert(vstd::relations::total_ordering(order));
    assert(one.no_duplicates()) by {
        assert forall|i: int, j: int|
            0 <= i < one.len() && 0 <= j < one.len() && i != j implies one[i] != one[j] by {
            if i < j {
                assert(first[i].index < first[j].index);
            } else {
                assert(first[j].index < first[i].index);
            }
        }
    }
    assert(two.no_duplicates()) by {
        assert forall|i: int, j: int|
            0 <= i < two.len() && 0 <= j < two.len() && i != j implies two[i] != two[j] by {
            if i < j {
                assert(second[i].index < second[j].index);
            } else {
                assert(second[j].index < second[i].index);
            }
        }
    }
    one.lemma_multiset_has_no_duplicates();
    two.lemma_multiset_has_no_duplicates();
    assert forall|index: u32| one.to_multiset().count(index) == two.to_multiset().count(
        index,
    ) by {
        lemma_grouping_indices(first, samples, prefix, index);
        lemma_grouping_indices(second, samples, prefix, index);
    }
    assert(one.to_multiset() =~= two.to_multiset());
    assert(vstd::relations::sorted_by(one, order)) by {
        assert forall|i: int, j: int| 0 <= i < j < one.len() implies #[trigger] order(
            one[i],
            one[j],
        ) by {
            assert(first[i].index < first[j].index);
        }
    }
    assert(vstd::relations::sorted_by(two, order)) by {
        assert forall|i: int, j: int| 0 <= i < j < two.len() implies #[trigger] order(
            two[i],
            two[j],
        ) by {
            assert(second[i].index < second[j].index);
        }
    }
    vstd::seq_lib::lemma_sorted_unique(one, two, order);
    assert(first.len() == second.len());
    assert forall|g: int| 0 <= g < first.len() implies first[g] == second[g] by {
        assert(one[g] == two[g]);
        assert(first[g].index == second[g].index);
    }
    assert(first =~= second);
}

/// The index of the series that a sample belongs to.
fn key_of(sample: &Sample, prefix: &str) -> (key: Option<u32>)
    ensures
        key == sample_key(sample@, prefix@),
{
    if sample.timestamp.is_err() {
        return None;
    }
    let value = to_chars(sample.probe_value.as_str());
    if !is_float_text(&value) {
        return None;
    }
    extract_index(sample.probe_name.as_str(), prefix)
}

/// The keys of the samples, in the order of the samples.
fn keys_of(samples: &Vec<Sample>, prefix: &str) -> (keys: Vec<Option<u32>>)
    ensures
        keys@.len() == samples@.len(),
        forall|k: int|
            0 <= k < samples@.len() ==> #[trigger] keys@[k] == sample_key(samples@[k]@, prefix@),
{
    let mut keys: Vec<Option<u32>> = Vec::new();
    let mut k: usize = 0;
    while k < samples.len()
        invariant
            0 <= k <= samples@.len(),
            keys@.len() == k,
            forall|m: int| 0 <= m < k ==> #[trigger] keys@[m] == sample_key(samples@[m]@, prefix@),
        decreases samples@.len() - k,
    {
        keys.push(key_of(&samples[k], prefix));
        k += 1;
    }
    keys
}

/// The indices among the keys, each once, in ascending order.
fn distinct_indices(keys: &Vec<Option<u32>>) -> (indices: Vec<u32>)
    ensures
        forall|a: int, b: int|
            0 <= a < b < indices@.len() ==> #[trigger] indices@[a] < #[trigger] indices@[b],
        forall|g: int|
            0 <= g < indices@.len() ==> keys@.contains(Some(#[trigger] indices@[g])),
        forall|k: int|
            0 <= k < keys@.len() && (#[trigger] keys@[k]) is Some ==> indices@.contains(
                keys@[k]->0,
            ),
{
    let mut indices: Vec<u32> = Vec::new();
    let mut k: usize = 0;
    while k < keys.len()
        invariant
            0 <= k <= keys@.len(),
            forall|a: int, b: int|
                0 <= a < b < indices@.len() ==> #[trigger] indices@[a] < #[trigger] indices@[b],
            forall|g: int|
                0 <= g < indices@.len() ==> keys@.contains(Some(#[trigger] indices@[g])),
            forall|m: int|
                0 <= m < k && (#[trigger] keys@[m]) is Some ==> indices@.contains(keys@[m]->0),
        decreases keys@.len() - k,
    {
        match keys[k] {
            None => {},
            Some(index) => {
                let mut at: usize = indices.len();
                while at > 0 && indices[at - 1] > index
                    invariant
                        0 <= at <= indices@.len(),
                        forall|g: int| at <= g < indices@.len() ==> #[trigger] indices@[g] > index,
                    decreases at,
                {
                    at -= 1;
                }
                if at > 0 && indices[at - 1] == index {
                    assert(indices@.contains(index));
                } else {
                    let ghost before = indices@;
                    indices.insert(at, index);
                    proof {
                        let after = indices@;
                        assert(after[at as int] == index);
                        assert(keys@[k as int] == Some(index));
                        assert forall|g: int| 0 <= g < after.len() implies keys@.contains(
                            Some(#[trigger] after[g]),
                        ) by {
                            if g < at {
                                assert(after[g] == before[g]);
                            } else if g > at {
                                assert(after[g] == before[g - 1]);
                            }
                        }
                        assert forall|m: int|
                            0 <= m < k + 1 && (#[trigger] keys@[m]) is Some implies after.contains(
                            keys@[m]->0,
                        ) by {
                            if m < k {
                                let g = choose|g: int|
                                    0 <= g < before.len() && before[g] == keys@[m]->0;
                                if g < at {
                                    assert(after[g] == before[g]);
                                } else {
                                    assert(after[g + 1] == before[g]);
                                }
                            }
                        }
                    }
                }
            },
        }
        k += 1;
    }
    indices
}

/// The points of the series with index `index`.
fn collect_points(samples: &Vec<Sample>, keys: &Vec<Option<u32>>, prefix: &str, index: u32) -> (points:
    Vec<SeriesPoint>)
    requires
        keys@.len() == samples@.len(),
        forall|k: int|
            0 <= k < samples@.len() ==> #[trigger] keys@[k] == sample_key(samples@[k]@, prefix@),
    ensures
        points_view(points@) == series_points(samples_view(samples@), prefix@, index),
{
    let ghost all = samples_view(samples@);
    let ghost wanted = in_series(prefix@, index);
    let mut points: Vec<SeriesPoint> = Vec::new();
    let mut k: usize = 0;
    proof {
        reveal(Seq::filter);
        assert(all.take(0) =~= Seq::<SampleView>::empty());
        assert(points_view(points@) =~= all.take(0).filter(wanted).map_values(
            |s: SampleView| point_of(s),
        ));
    }
    while k < samples.len()
        invariant
            0 <= k <= samples@.len(),
            keys@.len() == samples@.len(),
            all == samples_view(samples@),
            wanted == in_series(prefix@, index),
            forall|m: int|
                0 <= m < samples@.len() ==> #[trigger] keys@[m] == sample_key(
                    samples@[m]@,
                    prefix@,
                ),
            points_view(points@) == all.take(k as int).filter(wanted).map_values(
                |s: SampleView| point_of(s),
            ),
        decreases samples@.len() - k,
    {
        let sample = &samples[k];
        proof {
            assert(all.take(k + 1) =~= all.take(k as int).push(sample@));
            all.take(k as int).lemma_filter_push(sample@, wanted);
        }
        let belongs: bool = match keys[k] {
            Some(key) => key == index,
            None => false,
        };
        if belongs {
            match sample.timestamp {
                Ok(seconds) => {
                    let point = SeriesPoint { timestamp: seconds, value: sample.probe_value.clone() };
                    proof {
                        let kept = all.take(k as int).filter(wanted);
                        assert(point@ == point_of(sample@));
                        assert(points_view(points@.push(point)) =~= points_view(points@).push(
                            point@,
                        ));
                        assert(kept.push(sample@).map_values(|s: SampleView| point_of(s))
                            =~= kept.map_values(|s: SampleView| point_of(s)).push(
                            point_of(sample@),
                        ));
                    }
                    points.push(point);
                },
                Err(_) => {
                    assert(false);
                },
            }
        }
        k += 1;
    }
    assert(all.take(k as int) =~= all);
    points
}

/// Groups samples by the index that their names hold behind `prefix`.
pub fn group_samples(samples: &Vec<Sample>, prefix: &str) -> (groups: Vec<Series>)
    ensures
        is_grouping(groups_view(groups@), samples_view(samples@), prefix@),
{
    let ghost all = samples_view(samples@);
    let keys = keys_of(samples, prefix);
    let indices = distinct_indices(&keys);
    let mut groups: Vec<Series> = Vec::new();
    let mut g: usize = 0;
    while g < indices.len()
        invariant
            0 <= g <= indices@.len(),
            all == samples_view(samples@),
            keys@.len() == samples@.len(),
            forall|k: int|
                0 <= k < samples@.len() ==> #[trigger] keys@[k] == sample_key(
                    samples@[k]@,
                    prefix@,
                ),
            forall|a: int| 0 <= a < indices@.len() ==> keys@.contains(Some(#[trigger] indices@[a])),
            groups@.len() == g,
            forall|a: int|
                0 <= a < g ==> {
                    &&& (#[trigger] groups_view(groups@)[a]).index == indices@[a]
                    &&& groups_view(groups@)[a].label == label_text(prefix@, indices@[a])
                    &&& groups_view(groups@)[a].points == series_points(all, prefix@, indices@[a])
                    &&& groups_view(groups@)[a].points.len() > 0
                },
        decreases indices@.len() - g,
    {
        let index: u32 = indices[g];
        let points = collect_points(samples, &keys, prefix, index);
        let label = series_label(prefix, index);
        proof {
            let k = choose|k: int| 0 <= k < keys@.len() && keys@[k] == Some(index);
            assert(all[k] == samples@[k]@);
            assert(in_series(prefix@, index)(all[k]));
            all.lemma_filter_contains(in_series(prefix@, index), k);
            let kept = all.filter(in_series(prefix@, index));
            assert(kept.len() > 0);
        }
        let series = Series { index, label, points };
        proof {
            let before = groups_view(groups@);
            assert(groups_view(groups@.push(series)) =~= before.push(series@));
        }
        groups.push(series);
        g += 1;
    }
    proof {
        let result = groups_view(groups@);
        assert forall|k: int|
            0 <= k < all.len() && sample_key(#[trigger] all[k], prefix@) is Some implies exists|
            a: int,
        |
            0 <= a < result.len() && Some((#[trigger] result[a]).index) == sample_key(
                all[k],
                prefix@,
            ) by {
            assert(all[k] == samples@[k]@);
            assert(keys@[k] is Some);
            let a = choose|a: int| 0 <= a < indices@.len() && indices@[a] == keys@[k]->0;
            assert(result[a].index == indices@[a]);
        }
    }
    groups
}

/// The sample of a stored point, in mathematical terms: its timestamp read
/// as RFC 3339.
pub open spec fn sample_of(row: PointView) -> SampleView {
    SampleView {
        probe_name: row.probe_name,
        timestamp: rfc3339_unix_seconds(row.timestamp),
        probe_value: row.probe_value,
    }
}

/// The samples of stored points.
pub open spec fn samples_of(rows: Seq<PointView>) -> Seq<SampleView> {
    rows.map_values(|row: PointView| sample_of(row))
}

/// Reads the timestamps of stored points.
pub fn read_samples(metrics: &Vec<MetricDataPoint>) -> (samples: Vec<Sample>)
    ensures
        samples_view(samples@) == samples_of(rows_view(metrics@)),
{
    let mut samples: Vec<Sample> = Vec::new();
    let mut k: usize = 0;
    while k < metrics.len()
        invariant
            0 <= k <= metrics@.len(),
            samples_view(samples@) == samples_of(rows_view(metrics@).take(k as int)),
        decreases metrics@.len() - k,
    {
        let metric = &metrics[k];
        let sample = Sample {
            probe_name: metric.probe_name.clone(),
            timestamp: parse_timestamp(metric.timestamp.as_str()),
            probe_value: metric.probe_value.clone(),
        };
        proof {
            let rows = rows_view(metrics@);
            assert(rows.take(k + 1) =~= rows.take(k as int).push(metric@));
            assert(samples_view(samples@.push(sample)) =~= samples_view(samples@).push(sample@));
            assert(samples_of(rows.take(k as int).push(metric@)) =~= samples_of(
                rows.take(k as int),
            ).push(sample_of(metric@)));
        }
        samples.push(sample);
        k += 1;
    }
    assert(rows_view(metrics@).take(k as int) =~= rows_view(metrics@));
    samples
}

/// Group metrics by extracting index from pattern, as in
/// `cpu_core_0_usage_percent` under `Core 0`.
pub fn group_metrics_by_index(metrics: &Vec<MetricDataPoint>, prefix: &str) -> (groups: Vec<Series>)
    ensures
        is_grouping(groups_view(groups@), samples_of(rows_view(metrics@)), prefix@),
{
    let samples = read_samples(metrics);
    group_samples(&samples, prefix)
}

/// Group CPU metrics by core number.
pub fn group_by_core(metrics: &Vec<MetricDataPoint>) -> (groups: Vec<Series>)
    ensures
        is_grouping(groups_view(groups@), samples_of(rows_view(metrics@)), "cpu_core_"@),
{
    group_metrics_by_index(metrics, "cpu_core_")
}

/// Group temperature metrics by sensor number.
pub fn group_by_sensor(metrics: &Vec<MetricDataPoint>) -> (groups: Vec<Series>)
    ensures
        is_grouping(
            groups_view(groups@),
            samples_of(rows_view(metrics@)),
            "temperature_sensor_"@,
        ),
{
    group_metrics_by_index(metrics, "temperature_sensor_")
}

} // verus!
