use helioscope::charts::{ChartData, TimeSeries, TimeSeriesChart};
use helioscope::grouping::Sample;
use helioscope::http::charts::{
    handle_cpu_chart, handle_memory_chart, handle_temperature_chart, plot_points, BYTES_PER_GB,
};
use helioscope::point::MetricDataPoint;

const ID: &str = "d6f0a1c9-a494-4567-8f8d-091cc532c875";

fn metric(name: &str, time: &str, value: &str) -> MetricDataPoint {
    MetricDataPoint {
        node_id: ID.to_string(),
        timestamp: time.to_string(),
        probe_type: "sysinfo".to_string(),
        probe_name: name.to_string(),
        probe_value: value.to_string(),
    }
}

fn shape(series: &TimeSeries) -> (String, String, u64, Vec<(i64, String)>) {
    (
        series.name.clone(),
        series.unit.clone(),
        series.divisor,
        series.points.iter().map(|p| (p.timestamp, p.value.clone())).collect(),
    )
}

#[test]
fn cpu_chart_has_a_series_for_each_core() {
    let metrics = vec![
        metric("cpu_core_1_usage_percent", "2024-12-08T09:41:30Z", "20.5"),
        metric("cpu_core_0_usage_percent", "2024-12-08T09:41:30Z", "10.5"),
        metric("cpu_core_1_usage_percent", "2024-12-08T09:42:30Z", "21.5"),
    ];
    let data = handle_cpu_chart(ID, Some(metrics)).expect("chart");
    assert_eq!(data.title, "CPU Usage - Node d6f0a1c9...");
    assert_eq!(data.x_label, "Time");
    assert_eq!(data.y_label, "Usage (%)");
    assert_eq!(data.series.len(), 2);
    assert_eq!(
        shape(&data.series[0]),
        ("Core 0".to_string(), "%".to_string(), 1, vec![(1733650890, "10.5".to_string())])
    );
    assert_eq!(
        shape(&data.series[1]),
        (
            "Core 1".to_string(),
            "%".to_string(),
            1,
            vec![(1733650890, "20.5".to_string()), (1733650950, "21.5".to_string())]
        )
    );
    assert!(!data.is_empty());
}

#[test]
fn cpu_chart_reports_what_is_missing() {
    assert_eq!(handle_cpu_chart(ID, None).err(), Some("Query failed".to_string()));
    assert_eq!(
        handle_cpu_chart(ID, Some(Vec::new())).err(),
        Some("No CPU data available".to_string())
    );
    let metrics = vec![metric("cpu_core_x_usage_percent", "2024-12-08T09:41:30Z", "1")];
    assert_eq!(handle_cpu_chart(ID, Some(metrics)).err(), Some("No CPU data found".to_string()));
}

#[test]
fn temperature_chart_has_a_series_for_each_sensor() {
    let metrics = vec![metric("temperature_sensor_2_celsius", "2024-12-08T09:41:30Z", "40")];
    let data = handle_temperature_chart("n1", Some(metrics)).expect("chart");
    assert_eq!(data.title, "Temperature - Node n1");
    assert_eq!(data.x_label, "Time");
    assert_eq!(data.y_label, "Temperature (\u{b0}C)");
    assert_eq!(data.series.len(), 1);
    assert_eq!(
        shape(&data.series[0]),
        ("Sensor 2".to_string(), "\u{b0}C".to_string(), 1, vec![(1733650890, "40".to_string())])
    );
}

#[test]
fn temperature_chart_reports_what_is_missing() {
    assert_eq!(handle_temperature_chart(ID, None).err(), Some("Query failed".to_string()));
    assert_eq!(
        handle_temperature_chart(ID, Some(Vec::new())).err(),
        Some("No temperature data available".to_string())
    );
    let metrics = vec![metric("temperature_sensor_2_celsius", "2024-12-08T09:41:30Z", "hot")];
    assert_eq!(
        handle_temperature_chart(ID, Some(metrics)).err(),
        Some("No temperature data found".to_string())
    );
}

#[test]
fn memory_chart_draws_used_and_total() {
    let used = vec![
        metric("memory_used_bytes", "2024-12-08T09:41:30Z", "1073741824"),
        metric("memory_used_bytes", "soon", "2"),
        metric("memory_used_bytes", "2024-12-08T09:42:30Z", "2147483648"),
    ];
    let total = vec![metric("memory_total_bytes", "2024-12-08T09:41:30Z", "8589934592")];
    let data = handle_memory_chart(ID, Some(used), Some(total)).expect("chart");
    assert_eq!(data.title, "Memory Usage - Node d6f0a1c9...");
    assert_eq!(data.x_label, "Time");
    assert_eq!(data.y_label, "Memory (GB)");
    assert_eq!(data.series.len(), 2);
    assert_eq!(
        shape(&data.series[0]),
        (
            "Used Memory".to_string(),
            "GB".to_string(),
            1073741824,
            vec![(1733650890, "1073741824".to_string()), (1733650950, "2147483648".to_string())]
        )
    );
    assert_eq!(
        shape(&data.series[1]),
        (
            "Total Memory".to_string(),
            "GB".to_string(),
            1073741824,
            vec![(1733650890, "8589934592".to_string())]
        )
    );
    assert_eq!(BYTES_PER_GB, 1 << 30);
}

#[test]
fn memory_chart_without_total_draws_used_alone() {
    let used = vec![metric("memory_used_bytes", "never", "1")];
    let data = handle_memory_chart("n1", Some(used), Some(Vec::new())).expect("chart");
    assert_eq!(data.title, "Memory Usage - Node n1");
    assert_eq!(data.series.len(), 1);
    assert_eq!(shape(&data.series[0]), ("Used Memory".to_string(), "GB".to_string(), 1 << 30, vec![]));
    assert!(data.is_empty());
}

#[test]
fn memory_chart_reports_what_is_missing() {
    let used = vec![metric("memory_used_bytes", "2024-12-08T09:41:30Z", "1")];
    assert_eq!(handle_memory_chart(ID, None, Some(Vec::new())).err(), Some("Query failed".to_string()));
    assert_eq!(handle_memory_chart(ID, Some(used), None).err(), Some("Query failed".to_string()));
    assert_eq!(handle_memory_chart(ID, None, None).err(), Some("Query failed".to_string()));
    assert_eq!(
        handle_memory_chart(ID, Some(Vec::new()), Some(Vec::new())).err(),
        Some("No memory data available".to_string())
    );
}

#[test]
fn only_drawable_samples_are_plotted() {
    let samples = vec![
        Sample { probe_name: "a".to_string(), timestamp: Ok(1), probe_value: "1.5".to_string() },
        Sample { probe_name: "b".to_string(), timestamp: Err(()), probe_value: "2".to_string() },
        Sample { probe_name: "c".to_string(), timestamp: Ok(3), probe_value: "three".to_string() },
        Sample { probe_name: "d".to_string(), timestamp: Ok(-4), probe_value: "inf".to_string() },
    ];
    let points = plot_points(&samples);
    let shape: Vec<(i64, String)> = points.iter().map(|p| (p.timestamp, p.value.clone())).collect();
    assert_eq!(shape, vec![(1, "1.5".to_string()), (-4, "inf".to_string())]);
}

#[test]
fn chart_data_is_built_up_piece_by_piece() {
    let mut series = TimeSeries::new("test_metric").with_unit("%");
    assert!(series.is_empty());
    series.add_point(0, "10.0");
    series.add_point(1, "20.0");
    assert!(!series.is_empty());
    assert_eq!(
        shape(&series),
        (
            "test_metric".to_string(),
            "%".to_string(),
            1,
            vec![(0, "10.0".to_string()), (1, "20.0".to_string())]
        )
    );
    let mut chart = ChartData::new("Test Chart").with_labels("Time", "Usage");
    assert_eq!(chart.title, "Test Chart");
    assert_eq!(chart.x_label, "Time");
    assert_eq!(chart.y_label, "Usage");
    assert!(chart.is_empty());
    chart.add_series(TimeSeries::new("empty"));
    assert!(chart.is_empty());
    chart.add_series(series);
    assert!(!chart.is_empty());
    assert_eq!(chart.series.len(), 2);
    assert_eq!(chart.series[1].name, "test_metric");
}

#[test]
fn chart_size_defaults() {
    let chart = TimeSeriesChart::new(640, 480);
    assert_eq!(chart, TimeSeriesChart { width: 640, height: 480, show_grid: true, show_legend: true });
    assert_eq!(
        TimeSeriesChart::default(),
        TimeSeriesChart { width: 800, height: 400, show_grid: true, show_legend: true }
    );
}
