use helioscope::collector::{default_data_dir, default_host, default_port, Argz};
use helioscope::grouping::{extract_core_number, extract_index};
use helioscope::node::config::{
    default_collection_interval, default_config_file, Config, ProbesConfig, ProcfsProbes,
    SysinfoProbes, DELIVERY_ATTEMPTS,
};
use helioscope::node::probes::{probe_cpu, CoreReading};
use helioscope::point::ProbeDataPoint;

fn expected(name: &str, value: &str) -> ProbeDataPoint {
    ProbeDataPoint {
        node_id: "test-node".to_string(),
        timestamp: "2024-01-01T12:00:00Z".to_string(),
        probe_type: "sysinfo".to_string(),
        probe_name: name.to_string(),
        probe_value: value.to_string(),
    }
}

#[test]
fn cpu_probe_reports_count_and_each_core() {
    let cores = vec![
        CoreReading { frequency_mhz: 3600, usage_percent: "12.5".to_string() },
        CoreReading { frequency_mhz: 0, usage_percent: "0.0".to_string() },
    ];
    let points = probe_cpu(&cores, "test-node", "2024-01-01T12:00:00Z");
    assert_eq!(
        points,
        vec![
            expected("cpu_core_count", "2"),
            expected("cpu_core_0_frequency_mhz", "3600"),
            expected("cpu_core_0_usage_percent", "12.5"),
            expected("cpu_core_1_frequency_mhz", "0"),
            expected("cpu_core_1_usage_percent", "0.0"),
        ]
    );
}

#[test]
fn cpu_probe_without_cores_reports_the_count() {
    let points = probe_cpu(&Vec::new(), "test-node", "2024-01-01T12:00:00Z");
    assert_eq!(points, vec![expected("cpu_core_count", "0")]);
}

#[test]
fn index_written_by_the_probe_is_read_back() {
    let mut cores = Vec::new();
    let mut i: u64 = 0;
    while i < 130 {
        cores.push(CoreReading { frequency_mhz: i, usage_percent: "1.0".to_string() });
        i += 1;
    }
    let points = probe_cpu(&cores, "n", "t");
    assert_eq!(points.len(), 261);
    let mut k: usize = 0;
    while k < 130 {
        assert_eq!(extract_core_number(&points[1 + 2 * k].probe_name), Some(k as u32));
        assert_eq!(extract_core_number(&points[2 + 2 * k].probe_name), Some(k as u32));
        assert_eq!(points[1 + 2 * k].probe_value, k.to_string());
        k += 1;
    }
    assert_eq!(extract_index("disk_4294967295", "disk_"), Some(u32::MAX));
}

#[test]
fn node_defaults() {
    assert_eq!(default_config_file(), "helioscope-node.toml");
    assert_eq!(default_collection_interval(), 60);
    assert_eq!(DELIVERY_ATTEMPTS, 3);
    let config = Config {
        node_id: "test-node-123".to_string(),
        metrics_collector_addr: "localhost:8080".to_string(),
        collection_interval_secs: default_collection_interval(),
        probes: ProbesConfig {
            sysinfo: SysinfoProbes {
                cpu: true,
                memory: true,
                disk: false,
                network: false,
                temperature: false,
                static_info: true,
            },
            procfs: ProcfsProbes { forks: false },
        },
    };
    assert_eq!(config.node_id, "test-node-123");
    assert_eq!(config.metrics_collector_addr, "localhost:8080");
    assert_eq!(config.collection_interval_secs, 60);
    assert!(config.probes.sysinfo.cpu);
    assert!(!config.probes.sysinfo.temperature);
    assert!(!config.probes.procfs.forks);
}

#[test]
fn collector_defaults() {
    assert_eq!(default_host(), "localhost");
    assert_eq!(default_port(), "8080");
    assert_eq!(default_data_dir(), "data");
    let args = Argz::defaults();
    assert_eq!(args.host, "localhost");
    assert_eq!(args.port, "8080");
    assert_eq!(args.data_dir, "data");
}

#[test]
fn forks_probe_reads_the_processes_line() {
    let stat = "cpu  1 2 3\nctxt 100\nbtime 1700000000\nprocesses 12345\nprocs_running 2\n";
    let points = helioscope::node::probes::probe_forks("test-node", "2024-01-01T12:00:00Z", stat);
    assert_eq!(points.len(), 1);
    let dp = &points[0];
    assert_eq!(dp.node_id, "test-node");
    assert_eq!(dp.timestamp, "2024-01-01T12:00:00Z");
    assert_eq!(dp.probe_type, "procfs");
    assert_eq!(dp.probe_name, "forks_total");
    assert_eq!(dp.probe_value, "12345");
    let value: u64 = dp.probe_value.parse().expect("fork count should be a number");
    assert!(value > 0, "fork count should be positive");
}

#[test]
fn forks_probe_takes_the_first_line_that_has_a_count() {
    let probe = |stat: &str| -> Vec<String> {
        helioscope::node::probes::probe_forks("n", "t", stat)
            .into_iter()
            .map(|p| p.probe_value)
            .collect()
    };
    assert_eq!(probe(""), Vec::<String>::new());
    assert_eq!(probe("cpu 1 2 3\n"), Vec::<String>::new());
    assert_eq!(probe("processes"), Vec::<String>::new());
    assert_eq!(probe("processes "), Vec::<String>::new());
    assert_eq!(probe("processes \r\n"), Vec::<String>::new());
    assert_eq!(probe("processes\t7"), Vec::<String>::new());
    assert_eq!(probe(" processes 7"), Vec::<String>::new());
    assert_eq!(probe("processes 7"), vec!["7"]);
    assert_eq!(probe("processes 7\r\n"), vec!["7"]);
    assert_eq!(probe("processes   7  8 9"), vec!["7"]);
    assert_eq!(probe("processes \t many\n"), vec!["many"]);
    assert_eq!(probe("processes \nprocesses 8\nprocesses 9\n"), vec!["8"]);
    assert_eq!(probe("a\n\nprocesses 3"), vec!["3"]);
}

#[test]
fn white_space_is_what_the_language_calls_so() {
    let mut code: u32 = 0;
    while code <= 0x10ffff {
        if let Some(c) = char::from_u32(code) {
            assert_eq!(helioscope::node::probes::is_space_char(c), c.is_whitespace(), "{:x}", code);
        }
        code += 1;
    }
}

#[test]
fn memory_probe_reports_total_and_used() {
    let points =
        helioscope::node::probes::probe_memory(8589934592, 1073741824, "test-node", "2024-01-01T12:00:00Z");
    assert_eq!(
        points,
        vec![
            expected("memory_total_bytes", "8589934592"),
            expected("memory_used_bytes", "1073741824"),
        ]
    );
}

#[test]
fn temperature_probe_reports_count_and_each_sensor() {
    let celsius = vec!["41.5".to_string(), "39.0".to_string()];
    let points =
        helioscope::node::probes::probe_temperature(&celsius, "test-node", "2024-01-01T12:00:00Z");
    assert_eq!(
        points,
        vec![
            expected("temperature_sensor_count", "2"),
            expected("temperature_sensor_0_celsius", "41.5"),
            expected("temperature_sensor_1_celsius", "39.0"),
        ]
    );
    assert_eq!(
        helioscope::grouping::extract_sensor_number(&points[2].probe_name),
        Some(1)
    );
    let none = helioscope::node::probes::probe_temperature(&Vec::new(), "test-node", "2024-01-01T12:00:00Z");
    assert_eq!(none, vec![expected("temperature_sensor_count", "0")]);
}

#[test]
fn static_info_probe_reports_what_is_known() {
    let info = helioscope::node::probes::StaticInfo {
        hostname: Some("box".to_string()),
        os_name: None,
        kernel_version: Some("6.1".to_string()),
        cpu_arch: Some("x86_64".to_string()),
    };
    let points =
        helioscope::node::probes::probe_static_info(&info, "test-node", "2024-01-01T12:00:00Z");
    assert_eq!(
        points,
        vec![
            expected("system_hostname", "box"),
            expected("system_kernel_version", "6.1"),
            expected("system_cpu_arch", "x86_64"),
        ]
    );
    let nothing = helioscope::node::probes::StaticInfo {
        hostname: None,
        os_name: None,
        kernel_version: None,
        cpu_arch: None,
    };
    assert!(helioscope::node::probes::probe_static_info(&nothing, "n", "t").is_empty());
}
