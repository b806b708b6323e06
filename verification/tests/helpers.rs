use helioscope::grouping::{extract_core_number, extract_index, extract_sensor_number};
use helioscope::http::types::HealthResponse;
use helioscope::http::ui::helpers::{
    format_timestamp, is_displayable, is_shortenable, shorten_uuid,
};
use helioscope::point::MetricDataPoint;
use helioscope::timestamp::parse_timestamp;

#[test]
fn test_extract_core_number() {
    assert_eq!(extract_core_number("cpu_core_0_usage_percent"), Some(0));
    assert_eq!(extract_core_number("cpu_core_3_usage_percent"), Some(3));
    assert_eq!(extract_core_number("cpu_core_15_usage_percent"), Some(15));
    assert_eq!(extract_core_number("invalid"), None);
}

#[test]
fn test_extract_sensor_number() {
    assert_eq!(
        extract_sensor_number("temperature_sensor_0_celsius"),
        Some(0)
    );
    assert_eq!(
        extract_sensor_number("temperature_sensor_5_celsius"),
        Some(5)
    );
    assert_eq!(extract_sensor_number("invalid"), None);
}

#[test]
fn charts_test_shorten_uuid() {
    assert_eq!(
        shorten_uuid("d6f0a1c9-a494-4567-8f8d-091cc532c875"),
        "d6f0a1c9..."
    );
    assert_eq!(shorten_uuid("short"), "short");
}

#[test]
fn charts_test_parse_timestamp() {
    assert!(parse_timestamp("2024-12-08T09:41:30Z").is_ok());
    assert!(parse_timestamp("invalid").is_err());
}

#[test]
fn test_health_response_structure() {
    let response = HealthResponse {
        status: "healthy".to_string(),
        version: "1.0.0".to_string(),
        max_request_size_bytes: 5242880,
    };

    assert_eq!(response.status, "healthy");
    assert_eq!(response.version, "1.0.0");
    assert_eq!(response.max_request_size_bytes, 5242880);
}

#[test]
fn helpers_test_shorten_uuid() {
    assert_eq!(shorten_uuid("d6f0a1c9-a494-4567"), "d6f0a1c9...");
    assert_eq!(shorten_uuid("short"), "short");
}

#[test]
fn helpers_test_format_timestamp() {
    assert_eq!(
        format_timestamp("2024-12-08T09:41:30Z"),
        "2024-12-08 09:41:30"
    );
}

#[test]
fn helpers_test_parse_timestamp() {
    assert!(parse_timestamp("2024-12-08T09:41:30Z").is_ok());
    assert!(parse_timestamp("invalid").is_err());
}

#[test]
fn test_metric_data_point_clone() {
    let point = MetricDataPoint {
        node_id: "test".to_string(),
        timestamp: "2024-12-08T10:00:00Z".to_string(),
        probe_type: "sysinfo".to_string(),
        probe_name: "cpu_usage".to_string(),
        probe_value: "50.0".to_string(),
    };

    let cloned = point.clone();
    assert_eq!(point.node_id, cloned.node_id);
    assert_eq!(point.probe_value, cloned.probe_value);
}

#[test]
fn shorten_uuid_keeps_eight_bytes_or_fewer() {
    assert_eq!(shorten_uuid(""), "");
    assert_eq!(shorten_uuid("12345678"), "12345678");
    assert_eq!(shorten_uuid("123456789"), "12345678...");
    // eight bytes that end between two characters
    assert_eq!(shorten_uuid("abcdef\u{e9}xyz"), "abcdef\u{e9}...");
}

#[test]
fn format_timestamp_leaves_short_text_alone() {
    assert_eq!(format_timestamp(""), "");
    assert_eq!(format_timestamp("2024-12-08T09:41:3"), "2024-12-08T09:41:3");
    assert_eq!(format_timestamp("2024-12-08T09:41:30"), "2024-12-08 09:41:30");
    assert_eq!(
        format_timestamp("2024-12-08T09:41:30.123456789Z"),
        "2024-12-08 09:41:30"
    );
}

#[test]
fn parse_timestamp_gives_unix_seconds() {
    assert_eq!(parse_timestamp("2024-12-08T09:41:30Z"), Ok(1733650890));
    assert_eq!(parse_timestamp("1970-01-01T00:00:00Z"), Ok(0));
    assert_eq!(parse_timestamp("1970-01-01T01:00:00+01:00"), Ok(0));
    assert_eq!(parse_timestamp("2024-12-08 09:41:30"), Err(()));
    assert_eq!(parse_timestamp(""), Err(()));
}

#[test]
fn extract_index_reads_the_numeral_behind_the_prefix() {
    assert_eq!(extract_index("cpu_core_11_usage_percent", "cpu_core_"), Some(11));
    assert_eq!(extract_index("cpu_core_+7_x", "cpu_core_"), Some(7));
    assert_eq!(extract_index("cpu_core_007", "cpu_core_"), Some(7));
    assert_eq!(extract_index("cpu_core_4294967295_x", "cpu_core_"), Some(4294967295));
    assert_eq!(extract_index("cpu_core_4294967296_x", "cpu_core_"), None);
    assert_eq!(extract_index("cpu_core_x_usage_percent", "cpu_core_"), None);
    assert_eq!(extract_index("cpu_core__usage", "cpu_core_"), None);
    assert_eq!(extract_index("cpu_core_", "cpu_core_"), None);
    assert_eq!(extract_index("cpu_core_-1_x", "cpu_core_"), None);
    assert_eq!(extract_index("cpu_core_1x_y", "cpu_core_"), None);
    assert_eq!(extract_index("xcpu_core_1_y", "cpu_core_"), None);
    assert_eq!(extract_index("12_rest", ""), Some(12));
}

#[test]
fn texts_that_cannot_be_cut_are_told_apart() {
    assert!(is_shortenable(""));
    assert!(is_shortenable("short"));
    assert!(is_shortenable("d6f0a1c9-a494-4567"));
    assert!(is_shortenable("abcdef\u{e9}xyz"));
    assert!(!is_shortenable("abcdefg\u{e9}xyz"));
    assert!(!is_shortenable("abcdefg\u{e9}"));
    assert!(is_shortenable("abcdef\u{e9}"));
    assert!(is_displayable(""));
    assert!(is_displayable("2024-12-08T09:41:30Z"));
    assert!(is_displayable("2024-12-08T09:41:\u{e9}"));
    assert!(!is_displayable("2024-12-08T09:41:3\u{e9}Z"));
    assert!(!is_displayable("2024-12-0\u{e9}T09:41:30Z"));
    assert!(!is_displayable("2024-12-08\u{e9}09:41:30Z"));
}
