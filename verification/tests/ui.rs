use helioscope::http::ui::components::{button, chart_card, info_row, meta_item, stat_card};
use helioscope::http::ui::layout;
use helioscope::http::ui::models::{NodeDetails, NodeSummary};
use helioscope::http::ui::styles;
use helioscope::http::ui::templates::ErrorTemplate;
use helioscope::http::ui::views;
use helioscope::http::web::{
    build_node_details, build_node_summary, handle_home, handle_node_dashboard, ReadFailure,
};
use helioscope::point::MetricDataPoint;

fn row(node: &str, time: &str, name: &str, value: &str) -> MetricDataPoint {
    MetricDataPoint {
        node_id: node.to_string(),
        timestamp: time.to_string(),
        probe_type: "sysinfo".to_string(),
        probe_name: name.to_string(),
        probe_value: value.to_string(),
    }
}

fn expected_button(href: &str, text: &str, variant: &str) -> String {
    format!(
        r#"<a href="{}" class="btn btn-{}">{}</a>"#,
        href, variant, text
    )
}

fn expected_info_row(label: &str, value: &str) -> String {
    format!(
        r#"<div class="info-row">
    <span class="info-label">{}</span>
    <span class="info-value">{}</span>
</div>"#,
        label, value
    )
}

fn expected_stat_card(value: &str, label: &str) -> String {
    format!(
        r#"<div class="stat-card">
    <div class="stat-value">{}</div>
    <div class="stat-label">{}</div>
</div>"#,
        value, label
    )
}

fn expected_meta_item(label: &str, value: &str) -> String {
    format!(
        r#"<div class="meta-item">
    <div class="meta-label">{}</div>
    <div class="meta-value">{}</div>
</div>"#,
        label, value
    )
}

fn expected_chart_card(title: &str, img_src: &str, alt: &str) -> String {
    format!(
        r#"<div class="chart-card">
    <h3>{}</h3>
    <div class="chart-container">
        <img src="{}" alt="{}" loading="lazy">
    </div>
</div>"#,
        title, img_src, alt
    )
}

fn expected_page(title: &str, content: &str, extra_styles: &str, version: &str) -> String {
    format!(
        r#"<!DOCTYPE html>
<html lang="en">
<head>
    <meta charset="UTF-8">
    <meta name="viewport" content="width=device-width, initial-scale=1.0">
    <title>{title} - Helioscope</title>
    <style>
{base}
{buttons}
{extra}
    </style>
</head>
<body>
    <div class="container">
{content}
        <footer>
            <p>Helioscope v{version} | Built with Rust 🦀</p>
        </footer>
    </div>
</body>
</html>"#,
        title = title,
        base = styles::BASE,
        buttons = styles::BUTTONS,
        extra = extra_styles,
        content = content,
        version = version,
    )
}

fn expected_error_page(title: &str, message: &str, version: &str) -> String {
    let content = format!(
        r#"        <div class="error-container">
            <h1>⚠️ {}</h1>
            <p>{}</p>
            {}
        </div>"#,
        title,
        message,
        expected_button("/ui", "Back to Dashboard", "primary"),
    );
    expected_page("Error", &content, styles::ERROR_PAGE, version)
}

fn expected_card(
    short_id: &str,
    node_id: &str,
    cpu: &str,
    memory: &str,
    sensors: &str,
    last_seen: &str,
) -> String {
    format!(
        r#"            <div class="node-card">
                <div class="node-header">
                    <h3>Node: {}</h3>
                    <span class="status-badge">Active</span>
                </div>
                <div class="node-info">
                    {}
                    {}
                    {}
                    {}
                    {}
                </div>
                <div class="node-actions">
                    {}
                    {}
                    {}
                </div>
            </div>
"#,
        short_id,
        expected_info_row("Full ID", node_id),
        expected_info_row("CPU Cores", cpu),
        expected_info_row("Memory", memory),
        expected_info_row("Temp Sensors", sensors),
        expected_info_row("Last Seen", last_seen),
        expected_button(&format!("/ui/node/{}", node_id), "View Dashboard", "primary"),
        expected_button(&format!("/ui/node/{}/cpu.svg", node_id), "CPU Chart", "secondary"),
        expected_button(&format!("/ui/node/{}/memory.svg", node_id), "Memory Chart", "secondary"),
    )
}

fn expected_home(count: usize, cards: &str) -> String {
    let extra_styles = format!(
        "{}{}{}{}",
        styles::HEADER,
        styles::STATS,
        styles::NODE_CARDS,
        styles::INFO_ROWS,
    );
    let stats_html = format!(
        r#"            <div class="stats">
                {}
                {}
            </div>"#,
        expected_stat_card(&count.to_string(), "Active Nodes"),
        expected_stat_card("\u{2713}", "Collector Running"),
    );
    let header_html = format!(
        r#"        <header>
            <h1>🌞 Helioscope</h1>
            <p class="subtitle">System Monitoring Dashboard</p>
{}
        </header>"#,
        stats_html
    );
    let nodes_html = if count == 0 {
        r#"        <div class="no-data">
            <p>No nodes detected yet. Waiting for metrics...</p>
        </div>"#
            .to_string()
    } else {
        format!(
            r#"        <div class="nodes-grid">
{}
        </div>"#,
            cards
        )
    };
    let content = format!("{}\n{}", header_html, nodes_html);
    expected_page("Dashboard", &content, &extra_styles, "0.2.0")
}

fn expected_node_page(
    short_id: &str,
    node_id: &str,
    hostname: &str,
    os: &str,
    kernel: &str,
    arch: &str,
    cores: &str,
    memory: &str,
) -> String {
    let extra_styles = format!(
        "{}{}{}",
        styles::HEADER,
        styles::BUTTONS,
        styles::NODE_DASHBOARD,
    );
    let header = format!(
        r#"        <header>
            <div class="breadcrumb"><a href="/ui">← Back to Dashboard</a></div>
            <h1>Node: {}</h1>
            <p class="node-id-full">{}</p>
            <div class="node-meta">
                {}
                {}
                {}
                {}
                {}
                {}
            </div>
        </header>"#,
        short_id,
        node_id,
        expected_meta_item("Hostname", hostname),
        expected_meta_item("OS", os),
        expected_meta_item("Kernel", kernel),
        expected_meta_item("CPU Arch", arch),
        expected_meta_item("CPU Cores", cores),
        expected_meta_item("Memory", memory),
    );
    let charts = format!(
        r#"        <div class="charts-section">
            <h2>System Metrics (Last 24 Hours)</h2>
            <div class="charts-grid">
                {}
                {}
                {}
            </div>
        </div>"#,
        expected_chart_card("CPU Usage", &format!("/ui/node/{}/cpu.svg", node_id), "CPU Usage"),
        expected_chart_card(
            "Memory Usage",
            &format!("/ui/node/{}/memory.svg", node_id),
            "Memory Usage"
        ),
        expected_chart_card(
            "Temperature",
            &format!("/ui/node/{}/temperature.svg", node_id),
            "Temperature"
        ),
    );
    let actions = format!(
        r#"        <div class="actions">
            {}
            {}
            {}
        </div>"#,
        expected_button(&format!("/ui/node/{}/cpu.svg", node_id), "Download CPU Chart", "secondary"),
        expected_button(
            &format!("/ui/node/{}/memory.svg", node_id),
            "Download Memory Chart",
            "secondary"
        ),
        expected_button(
            &format!("/ui/node/{}/temperature.svg", node_id),
            "Download Temp Chart",
            "secondary"
        ),
    );
    let content = format!("{}\n{}\n{}", header, charts, actions);
    expected_page(&format!("Node {}", short_id), &content, &extra_styles, "0.2.0")
}

#[test]
fn components_set_their_texts_into_their_frames() {
    assert_eq!(button("/ui", "Back", "primary"), expected_button("/ui", "Back", "primary"));
    assert_eq!(
        button("/ui", "Back", "primary"),
        "<a href=\"/ui\" class=\"btn btn-primary\">Back</a>"
    );
    assert_eq!(info_row("CPU Cores", "4"), expected_info_row("CPU Cores", "4"));
    assert_eq!(stat_card("3", "Active Nodes"), expected_stat_card("3", "Active Nodes"));
    assert_eq!(meta_item("OS", "Linux"), expected_meta_item("OS", "Linux"));
    assert_eq!(
        chart_card("CPU Usage", "/ui/node/n1/cpu.svg", "CPU"),
        expected_chart_card("CPU Usage", "/ui/node/n1/cpu.svg", "CPU")
    );
    assert_eq!(button("", "", ""), expected_button("", "", ""));
    assert_eq!(info_row("", ""), expected_info_row("", ""));
}

#[test]
fn layout_frames_the_content() {
    assert_eq!(layout::VERSION, "0.2.0");
    assert_eq!(
        layout::render("Title", "<p>content</p>", ".extra {}"),
        expected_page("Title", "<p>content</p>", ".extra {}", "0.2.0")
    );
    assert_eq!(
        layout::render_version("", "", "", "9.9.9"),
        expected_page("", "", "", "9.9.9")
    );
    let page = layout::render("Title", "<p>content</p>", ".extra {}");
    assert!(page.starts_with("<!DOCTYPE html>\n<html lang=\"en\">"));
    assert!(page.contains("<title>Title - Helioscope</title>"));
    assert!(page.contains("<p>Helioscope v0.2.0 | Built with Rust \u{1F980}</p>"));
    assert!(page.ends_with("</body>\n</html>"));
}

#[test]
fn error_page_shows_title_and_message() {
    assert_eq!(
        views::error::render("Query Error", "Failed to load node list"),
        expected_error_page("Query Error", "Failed to load node list", "0.2.0")
    );
    assert_eq!(
        views::error::render_version("T", "M", "1.0.0"),
        expected_error_page("T", "M", "1.0.0")
    );
    let template = ErrorTemplate::new("Not Found", "No data");
    assert_eq!(template.version, "0.2.0");
    assert_eq!(template.render(), expected_error_page("Not Found", "No data", "0.2.0"));
    let other = ErrorTemplate { title: "a", message: "b", version: "c" };
    assert_eq!(other.render(), expected_error_page("a", "b", "c"));
}

#[test]
fn home_page_without_nodes_says_so() {
    assert_eq!(views::home::render(&Vec::new()), expected_home(0, ""));
}

#[test]
fn home_page_shows_a_card_for_each_node() {
    let mut first = NodeSummary::new("d6f0a1c9-a494-4567-8f8d-091cc532c875".to_string());
    first.cpu_cores = Some("4".to_string());
    first.memory_total_bytes = Some("8589934592".to_string());
    first.memory_total_gb = Some("8.0 GB".to_string());
    first.temp_sensors = Some("2".to_string());
    first.last_seen = Some("2024-12-08T09:41:30Z".to_string());
    let second = NodeSummary::new("n2".to_string());
    let cards = format!(
        "{}{}",
        expected_card(
            "d6f0a1c9...",
            "d6f0a1c9-a494-4567-8f8d-091cc532c875",
            "4",
            "8.0 GB",
            "2",
            "2024-12-08 09:41:30"
        ),
        expected_card("n2", "n2", "N/A", "N/A", "N/A", "N/A"),
    );
    assert_eq!(views::home::render_node_card(&second), expected_card("n2", "n2", "N/A", "N/A", "N/A", "N/A"));
    assert_eq!(views::home::render(&vec![first, second]), expected_home(2, &cards));
}

#[test]
fn node_page_shows_the_details() {
    let mut node = NodeDetails::new("d6f0a1c9-a494-4567-8f8d-091cc532c875".to_string());
    node.hostname = Some("box".to_string());
    node.os_name = Some("Linux".to_string());
    node.kernel_version = Some("6.1".to_string());
    node.cpu_arch = Some("x86_64".to_string());
    node.cpu_cores = Some("4".to_string());
    node.memory_total_gb = Some("8.0 GB".to_string());
    assert_eq!(
        views::node::render(&node),
        expected_node_page(
            "d6f0a1c9...",
            "d6f0a1c9-a494-4567-8f8d-091cc532c875",
            "box",
            "Linux",
            "6.1",
            "x86_64",
            "4",
            "8.0 GB"
        )
    );
    let bare = NodeDetails::new("n2".to_string());
    assert_eq!(
        views::node::render(&bare),
        expected_node_page("n2", "n2", "N/A", "N/A", "N/A", "N/A", "N/A", "N/A")
    );
}

#[test]
fn summary_is_read_from_the_latest_snapshot() {
    let metrics = vec![
        row("n1", "", "system_hostname", "box"),
        row("n1", "2024-12-08T09:41:30Z", "cpu_core_count", "2"),
        row("n1", "2024-12-08T09:41:31Z", "cpu_core_count", "4"),
        row("n1", "2024-12-08T09:41:30Z", "memory_total_bytes", "8589934592"),
        row("n1", "2024-12-08T09:41:30Z", "memory_total_bytes", "a lot"),
        row("n1", "2024-12-08T09:41:30Z", "temperature_sensor_count", "3"),
        row("n1", "2024-12-08T09:41:30Z", "system_os_name", "Linux"),
        row("n1", "2024-12-08T09:41:30Z", "system_kernel_version", "6.1"),
        row("n1", "2024-12-08T09:41:30Z", "system_cpu_arch", "x86_64"),
    ];
    let summary = build_node_summary("n1", &metrics);
    assert_eq!(summary.node_id, "n1");
    assert_eq!(summary.cpu_cores.as_deref(), Some("4"));
    assert_eq!(summary.memory_total_bytes.as_deref(), Some("8589934592"));
    assert_eq!(summary.memory_total_gb, None);
    assert_eq!(summary.temp_sensors.as_deref(), Some("3"));
    assert_eq!(summary.last_seen.as_deref(), Some("2024-12-08T09:41:30Z"));
    let details = build_node_details("n1", &metrics);
    assert_eq!(details.node_id, "n1");
    assert_eq!(details.hostname.as_deref(), Some("box"));
    assert_eq!(details.os_name.as_deref(), Some("Linux"));
    assert_eq!(details.kernel_version.as_deref(), Some("6.1"));
    assert_eq!(details.cpu_arch.as_deref(), Some("x86_64"));
    assert_eq!(details.cpu_cores.as_deref(), Some("4"));
    assert_eq!(details.memory_total_bytes.as_deref(), Some("8589934592"));
    assert_eq!(details.memory_total_gb, None);
    assert_eq!(details.last_seen.as_deref(), Some("2024-12-08T09:41:30Z"));
    let nothing = build_node_summary("n9", &Vec::new());
    assert_eq!(nothing.node_id, "n9");
    assert_eq!(nothing.cpu_cores, None);
    assert_eq!(nothing.memory_total_bytes, None);
    assert_eq!(nothing.temp_sensors, None);
    assert_eq!(nothing.last_seen, None);
}

#[test]
fn home_lists_every_node_with_its_latest_snapshot() {
    let rows = vec![
        row("n2", "2024-12-08T09:00:00Z", "cpu_core_count", "8"),
        row("n1", "2024-12-08T09:00:00Z", "cpu_core_count", "2"),
        row("n1", "2024-12-08T10:00:00Z", "cpu_core_count", "4"),
        row("n1", "2024-12-08T10:00:00Z", "memory_total_bytes", "8589934592"),
    ];
    let nodes = handle_home(Ok(&rows)).expect("nodes");
    assert_eq!(nodes.len(), 2);
    assert_eq!(nodes[0].node_id, "n1");
    assert_eq!(nodes[0].cpu_cores.as_deref(), Some("4"));
    assert_eq!(nodes[0].memory_total_bytes.as_deref(), Some("8589934592"));
    assert_eq!(nodes[0].last_seen.as_deref(), Some("2024-12-08T10:00:00Z"));
    assert_eq!(nodes[1].node_id, "n2");
    assert_eq!(nodes[1].cpu_cores.as_deref(), Some("8"));
    assert_eq!(nodes[1].memory_total_bytes, None);
    assert!(handle_home(Ok(&Vec::new())).expect("nodes").is_empty());
}

#[test]
fn home_reports_what_failed() {
    let failure = handle_home(Err(ReadFailure::Connect)).err().expect("failure");
    assert_eq!(failure.title, "Database Error");
    assert_eq!(failure.message, "Failed to connect to database");
    let failure = handle_home(Err(ReadFailure::Query)).err().expect("failure");
    assert_eq!(failure.title, "Query Error");
    assert_eq!(failure.message, "Failed to load node list");
}

#[test]
fn dashboard_shows_a_node_or_reports_what_failed() {
    let rows = vec![
        row("n1", "2024-12-08T09:00:00Z", "system_hostname", "old"),
        row("n1", "2024-12-08T10:00:00Z", "system_hostname", "box"),
    ];
    let details = handle_node_dashboard("n1", Ok(&rows)).expect("details");
    assert_eq!(details.node_id, "n1");
    assert_eq!(details.hostname.as_deref(), Some("box"));
    assert_eq!(details.last_seen.as_deref(), Some("2024-12-08T10:00:00Z"));
    let failure = handle_node_dashboard("n7", Ok(&rows)).err().expect("failure");
    assert_eq!(failure.title, "Not Found");
    assert_eq!(failure.message, "No data found for node n7");
    let failure = handle_node_dashboard("n1", Err(ReadFailure::Connect)).err().expect("failure");
    assert_eq!(failure.title, "Database Error");
    assert_eq!(failure.message, "Failed to connect to database");
    let failure = handle_node_dashboard("n1", Err(ReadFailure::Query)).err().expect("failure");
    assert_eq!(failure.title, "Query Error");
    assert_eq!(failure.message, "Failed to load node metrics");
}
