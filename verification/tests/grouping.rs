use helioscope::grouping::{
    group_by_core, group_by_sensor, group_metrics_by_index, group_samples, read_samples,
    series_label, Sample, Series,
};
use helioscope::point::MetricDataPoint;

fn metric(name: &str, time: &str, value: &str) -> MetricDataPoint {
    MetricDataPoint {
        node_id: "n1".to_string(),
        timestamp: time.to_string(),
        probe_type: "sysinfo".to_string(),
        probe_name: name.to_string(),
        probe_value: value.to_string(),
    }
}

fn sample(name: &str, timestamp: Result<i64, ()>, value: &str) -> Sample {
    Sample { probe_name: name.to_string(), timestamp, probe_value: value.to_string() }
}

fn shape(groups: &Vec<Series>) -> Vec<(u32, String, Vec<(i64, String)>)> {
    groups
        .iter()
        .map(|g| {
            (
                g.index,
                g.label.clone(),
                g.points.iter().map(|p| (p.timestamp, p.value.clone())).collect(),
            )
        })
        .collect()
}

#[test]
fn cores_are_grouped_under_their_labels() {
    let metrics = vec![
        metric("cpu_core_0_usage_percent", "2024-12-08T09:41:30Z", "12.5"),
        metric("cpu_core_11_usage_percent", "2024-12-08T09:41:30Z", "99.0"),
        metric("cpu_core_x_usage_percent", "2024-12-08T09:41:30Z", "50.0"),
    ];
    let groups = group_metrics_by_index(&metrics, "cpu_core_");
    assert_eq!(
        shape(&groups),
        vec![
            (0, "Core 0".to_string(), vec![(1733650890, "12.5".to_string())]),
            (11, "Core 11".to_string(), vec![(1733650890, "99.0".to_string())]),
        ]
    );
}

#[test]
fn malformed_points_are_skipped() {
    let metrics = vec![
        metric("cpu_core_1_usage_percent", "2024-12-08T09:41:31Z", "2"),
        metric("cpu_core_1_usage_percent", "yesterday", "3"),
        metric("cpu_core_1_usage_percent", "2024-12-08T09:41:32Z", "much"),
        metric("cpu_core_0_usage_percent", "2024-12-08T09:41:30Z", "1e1"),
        metric("memory_used_bytes", "2024-12-08T09:41:30Z", "5"),
        metric("cpu_core_1_usage_percent", "2024-12-08T09:41:30Z", "-.5"),
        metric("cpu_core_2_usage_percent", "2024-12-08T09:41:30", "7"),
    ];
    let groups = group_by_core(&metrics);
    assert_eq!(
        shape(&groups),
        vec![
            (0, "Core 0".to_string(), vec![(1733650890, "1e1".to_string())]),
            (
                1,
                "Core 1".to_string(),
                vec![(1733650891, "2".to_string()), (1733650890, "-.5".to_string())]
            ),
        ]
    );
}

#[test]
fn sensors_are_grouped_under_their_labels() {
    let metrics = vec![
        metric("temperature_sensor_1_celsius", "2024-12-08T09:41:30Z", "41.5"),
        metric("temperature_sensor_0_celsius", "2024-12-08T09:41:30Z", "39"),
        metric("temperature_sensor_1_celsius", "2024-12-08T09:42:30Z", "42"),
    ];
    let groups = group_by_sensor(&metrics);
    assert_eq!(
        shape(&groups),
        vec![
            (0, "Sensor 0".to_string(), vec![(1733650890, "39".to_string())]),
            (
                1,
                "Sensor 1".to_string(),
                vec![(1733650890, "41.5".to_string()), (1733650950, "42".to_string())]
            ),
        ]
    );
}

#[test]
fn grouping_nothing_gives_nothing() {
    assert!(group_metrics_by_index(&Vec::new(), "cpu_core_").is_empty());
    assert!(group_samples(&Vec::new(), "cpu_core_").is_empty());
    let metrics = vec![metric("cpu_core_x", "2024-12-08T09:41:30Z", "1")];
    assert!(group_by_core(&metrics).is_empty());
}

#[test]
fn samples_are_grouped_by_index_in_ascending_order() {
    let samples = vec![
        sample("disk_7_used", Ok(3), "30"),
        sample("disk_2_used", Ok(1), "10"),
        sample("disk_7_free", Ok(4), "40"),
        sample("disk_2_used", Err(()), "11"),
        sample("disk_2_used", Ok(2), "nan"),
        sample("disk_2_used", Ok(5), ""),
        sample("disk_x_used", Ok(6), "60"),
    ];
    let groups = group_samples(&samples, "disk_");
    assert_eq!(
        shape(&groups),
        vec![
            (2, "#2".to_string(), vec![(1, "10".to_string()), (2, "nan".to_string())]),
            (7, "#7".to_string(), vec![(3, "30".to_string()), (4, "40".to_string())]),
        ]
    );
}

#[test]
fn labels_follow_the_prefix() {
    assert_eq!(series_label("cpu_core_", 3), "Core 3");
    assert_eq!(series_label("temperature_sensor_", 0), "Sensor 0");
    assert_eq!(series_label("cpu_sensor_", 1), "Core 1");
    assert_eq!(series_label("disk_", 4294967295), "#4294967295");
    assert_eq!(series_label("", 12), "#12");
    assert_eq!(series_label("CPU_", 12), "#12");
}

#[test]
fn samples_carry_the_timestamps_read() {
    let metrics = vec![
        metric("a", "2024-12-08T09:41:30Z", "1"),
        metric("b", "not a time", "2"),
    ];
    let samples = read_samples(&metrics);
    assert_eq!(samples.len(), 2);
    assert_eq!(samples[0].probe_name, "a");
    assert_eq!(samples[0].timestamp, Ok(1733650890));
    assert_eq!(samples[0].probe_value, "1");
    assert_eq!(samples[1].probe_name, "b");
    assert_eq!(samples[1].timestamp, Err(()));
    assert_eq!(samples[1].probe_value, "2");
}
