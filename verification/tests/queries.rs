use helioscope::point::MetricDataPoint;
use helioscope::store::db::{current_date, shard_file_name, shard_url, READER_POOL_SIZE};
use helioscope::store::queries::{
    query_all_node_ids, query_all_nodes_metrics, query_latest_node_metrics, query_node_metrics,
};
use helioscope::timestamp::{format_date, format_timestamp, window_bounds};

const HOUR: i128 = 3_600_000_000_000;
const NOW: i128 = 1_733_653_800_000_000_000;

fn row(node: &str, time: &str, name: &str, value: &str) -> MetricDataPoint {
    MetricDataPoint {
        node_id: node.to_string(),
        timestamp: time.to_string(),
        probe_type: "sysinfo".to_string(),
        probe_name: name.to_string(),
        probe_value: value.to_string(),
    }
}

fn values(rows: &Vec<MetricDataPoint>) -> Vec<String> {
    rows.iter().map(|r| r.probe_value.clone()).collect()
}

#[test]
fn queries_test_format_timestamp() {
    let formatted = format_timestamp(NOW);
    assert!(formatted.starts_with("2024-12-08"));
    assert!(formatted.contains("10:30:00"));
}

#[test]
fn format_timestamp_is_rfc3339_in_utc() {
    assert_eq!(format_timestamp(NOW), "2024-12-08T10:30:00Z");
    assert_eq!(format_timestamp(0), "1970-01-01T00:00:00Z");
    assert_eq!(format_timestamp(NOW + 500_000_000), "2024-12-08T10:30:00.5Z");
    assert_eq!(format_timestamp(-1_000_000_000), "1969-12-31T23:59:59Z");
}

#[test]
fn format_timestamp_falls_back_to_the_epoch() {
    // the year 10000 has no RFC 3339 form
    assert_eq!(format_timestamp(253_402_300_800_000_000_000), "1970-01-01T00:00:00Z");
    assert_eq!(format_timestamp(i128::MAX), "1970-01-01T00:00:00Z");
    assert_eq!(format_timestamp(i128::MIN), "1970-01-01T00:00:00Z");
}

#[test]
fn window_bounds_span_the_hours() {
    let (start, end) = window_bounds(NOW, 1);
    assert_eq!(start, "2024-12-08T09:30:00Z");
    assert_eq!(end, "2024-12-08T10:30:00Z");
    let (start, end) = window_bounds(NOW, 24);
    assert_eq!(start, "2024-12-07T10:30:00Z");
    assert_eq!(end, "2024-12-08T10:30:00Z");
    let (start, end) = window_bounds(NOW, 0);
    assert_eq!(start, end);
}

#[test]
fn window_of_one_hour_returns_exactly_the_point_an_hour_ago() {
    let rows = vec![
        row("n1", &format_timestamp(NOW - 2 * HOUR), "cpu_core_0_usage_percent", "two hours ago"),
        row("n1", &format_timestamp(NOW - HOUR), "cpu_core_0_usage_percent", "one hour ago"),
        row("n1", &format_timestamp(NOW + HOUR), "cpu_core_0_usage_percent", "in one hour"),
    ];
    let (start, end) = window_bounds(NOW, 1);
    let found = query_node_metrics(&rows, "n1", "cpu_core_%_usage_percent", &start, &end);
    assert_eq!(values(&found), vec!["one hour ago"]);
}

#[test]
fn window_has_both_of_its_ends() {
    let rows = vec![
        row("n1", "2024-12-08T10:30:00Z", "m", "end"),
        row("n1", "2024-12-08T09:30:00Z", "m", "start"),
        row("n1", "2024-12-08T09:29:59Z", "m", "before"),
        row("n1", "2024-12-08T10:30:01Z", "m", "after"),
    ];
    let found =
        query_node_metrics(&rows, "n1", "m", "2024-12-08T09:30:00Z", "2024-12-08T10:30:00Z");
    assert_eq!(values(&found), vec!["start", "end"]);
}

#[test]
fn windowed_query_selects_node_and_pattern_and_sorts_by_time() {
    let rows = vec![
        row("n1", "2024-12-08T10:00:03Z", "cpu_core_1_usage_percent", "c"),
        row("n2", "2024-12-08T10:00:01Z", "cpu_core_0_usage_percent", "other node"),
        row("n1", "2024-12-08T10:00:01Z", "cpu_core_0_usage_percent", "a"),
        row("n1", "2024-12-08T10:00:02Z", "memory_used_bytes", "other metric"),
        row("n1", "2024-12-08T10:00:02Z", "CPU_CORE_12_USAGE_PERCENT", "b"),
        row("n1", "2024-12-08T10:00:03Z", "cpu_core_0_usage_percent", "d"),
        row("n1", "2024-12-08T10:00:02Z", "cpu_core__usage_percent", "b2"),
    ];
    let found = query_node_metrics(
        &rows,
        "n1",
        "cpu_core_%_usage_percent",
        "2024-12-08T00:00:00Z",
        "2024-12-08T23:59:59Z",
    );
    // rows of one timestamp keep the order in which they were written
    assert_eq!(values(&found), vec!["a", "b", "b2", "c", "d"]);
}

#[test]
fn windowed_query_of_all_nodes_sorts_by_node_first() {
    let rows = vec![
        row("n2", "2024-12-08T10:00:01Z", "m", "n2 first"),
        row("n1", "2024-12-08T10:00:03Z", "m", "n1 second"),
        row("n10", "2024-12-08T10:00:00Z", "m", "n10"),
        row("n1", "2024-12-08T10:00:02Z", "m", "n1 first"),
        row("n2", "2024-12-08T10:00:02Z", "x", "other metric"),
        row("n2", "2024-12-09T10:00:02Z", "m", "too late"),
    ];
    let found =
        query_all_nodes_metrics(&rows, "m", "2024-12-08T00:00:00Z", "2024-12-08T23:59:59Z");
    assert_eq!(values(&found), vec!["n1 first", "n1 second", "n10", "n2 first"]);
}

#[test]
fn queries_on_an_empty_shard_find_nothing() {
    let rows: Vec<MetricDataPoint> = Vec::new();
    assert!(query_node_metrics(&rows, "n1", "%", "", "z").is_empty());
    assert!(query_all_nodes_metrics(&rows, "%", "", "z").is_empty());
    assert!(query_latest_node_metrics(&rows, "n1").is_empty());
    assert!(query_all_node_ids(&rows).is_empty());
}

#[test]
fn latest_snapshot_is_the_whole_last_cycle() {
    let rows = vec![
        row("n1", "2024-12-08T10:00:00Z", "cpu_core_count", "old"),
        row("n1", "2024-12-08T10:01:00Z", "cpu_core_count", "4"),
        row("n2", "2024-12-08T10:02:00Z", "cpu_core_count", "other node"),
        row("n1", "2024-12-08T10:01:00Z", "memory_total_bytes", "8589934592"),
        row("n1", "2024-12-08T10:00:00Z", "memory_total_bytes", "old too"),
    ];
    let latest = query_latest_node_metrics(&rows, "n1");
    assert_eq!(values(&latest), vec!["4", "8589934592"]);
    assert_eq!(values(&query_latest_node_metrics(&rows, "n2")), vec!["other node"]);
    assert!(query_latest_node_metrics(&rows, "n3").is_empty());
}

#[test]
fn node_ids_are_distinct_and_sorted() {
    let rows = vec![
        row("n2", "t", "m", "1"),
        row("n10", "t", "m", "2"),
        row("n1", "t", "m", "3"),
        row("n2", "t", "m", "4"),
        row("N1", "t", "m", "5"),
        row("", "t", "m", "6"),
        row("n1", "t", "m", "7"),
    ];
    assert_eq!(query_all_node_ids(&rows), vec!["", "N1", "n1", "n10", "n2"]);
}

#[test]
fn shard_is_named_by_its_date() {
    assert_eq!(shard_file_name("2024-12-08"), "metrics_2024-12-08.db");
    assert_eq!(shard_url("data", "2024-12-08"), "sqlite://data/metrics_2024-12-08.db");
    assert_eq!(current_date(2024, 12, 8), "2024-12-08");
    assert_eq!(READER_POOL_SIZE, 5);
}

#[test]
fn dates_are_padded_with_zeros() {
    assert_eq!(format_date(2024, 1, 2), "2024-01-02");
    assert_eq!(format_date(987, 10, 31), "0987-10-31");
    assert_eq!(format_date(0, 1, 1), "0000-01-01");
    assert_eq!(format_date(12345, 6, 7), "12345-06-07");
    assert_eq!(format_date(-5, 6, 7), "-005-06-07");
    assert_eq!(format_date(-12345, 6, 7), "-12345-06-07");
    assert_eq!(format_date(i32::MIN, 255, 0), "-2147483648-255-00");
    assert_eq!(format_date(2024, 12, 8), format!("{:04}-{:02}-{:02}", 2024, 12, 8));
    assert_eq!(format_date(-5, 6, 7), format!("{:04}-{:02}-{:02}", -5, 6, 7));
}
