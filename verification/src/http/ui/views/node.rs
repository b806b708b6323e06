//! The dashboard of one node.

use crate::http::ui::components::{
    button, button_markup, chart_card, chart_card_markup, meta_item, meta_item_markup,
};
use crate::http::ui::helpers::{can_shorten, shorten_uuid, shortened};
use crate::http::ui::layout;
use crate::http::ui::models::{opt_view, NodeDetails, NodeDetailsView};
use crate::http::ui::styles;
use crate::http::ui::views::home::or_na;
use vstd::prelude::*;
use vstd::string::*;

verus! {

/// The address of a chart of a node.
pub open spec fn chart_href(node_id: Seq<char>, chart: Seq<char>) -> Seq<char> {
    "/ui/node/"@ + node_id + "/"@ + chart + ".svg"@
}

/// The header of the dashboard: who the node is.
pub open spec fn node_header_markup(node: NodeDetailsView) -> Seq<char> {
    "        <header>\n            <div class=\"breadcrumb\"><a href=\"/ui\">\u{2190} Back to Dashboard</a></div>\n            <h1>Node: "@ +
        shortened(node.node_id) +
        "</h1>\n            <p class=\"node-id-full\">"@ +
        node.node_id +
        "</p>\n            <div class=\"node-meta\">\n                "@ +
        meta_item_markup("Hostname"@, or_na(node.hostname)) +
        "\n                "@ +
        meta_item_markup("OS"@, or_na(node.os_name)) +
        "\n                "@ +
        meta_item_markup("Kernel"@, or_na(node.kernel_version)) +
        "\n                "@ +
        meta_item_markup("CPU Arch"@, or_na(node.cpu_arch)) +
        "\n                "@ +
        meta_item_markup("CPU Cores"@, or_na(node.cpu_cores)) +
        "\n                "@ +
        meta_item_markup("Memory"@, or_na(node.memory_total_gb)) +
        "\n            </div>\n        </header>"@
}

/// The charts of the dashboard.
pub open spec fn charts_markup(node_id: Seq<char>) -> Seq<char> {
    "        <div class=\"charts-section\">\n            <h2>System Metrics (Last 24 Hours)</h2>\n            <div class=\"charts-grid\">\n                "@ +
        chart_card_markup("CPU Usage"@, chart_href(node_id, "cpu"@), "CPU Usage"@) +
        "\n                "@ +
        chart_card_markup("Memory Usage"@, chart_href(node_id, "memory"@), "Memory Usage"@) +
        "\n                "@ +
        chart_card_markup("Temperature"@, chart_href(node_id, "temperature"@), "Temperature"@) +
        "\n            </div>\n        </div>"@
}

/// The links by which the charts are had as files.
pub open spec fn actions_markup(node_id: Seq<char>) -> Seq<char> {
    "        <div class=\"actions\">\n            "@ +
        button_markup(chart_href(node_id, "cpu"@), "Download CPU Chart"@, "secondary"@) +
        "\n            "@ +
        button_markup(chart_href(node_id, "memory"@), "Download Memory Chart"@, "secondary"@) +
        "\n            "@ +
        button_markup(chart_href(node_id, "temperature"@), "Download Temp Chart"@, "secondary"@) +
        "\n        </div>"@
}

/// The styles of the dashboard.
pub open spec fn node_styles() -> Seq<char> {
    styles::HEADER@ + styles::BUTTONS@ + styles::NODE_DASHBOARD@
}

/// The dashboard of a node.
pub open spec fn node_page(node: NodeDetailsView) -> Seq<char> {
    layout::page(
        "Node "@ + shortened(node.node_id),
        node_header_markup(node) + "\n"@ + charts_markup(node.node_id) + "\n"@ + actions_markup(
            node.node_id,
        ),
        node_styles(),
    )
}

/// The text of an optional field, or `N/A`.
fn text_or_na(text: &Option<String>) -> (shown: String)
    ensures
        shown@ == or_na(opt_view(*text)),
{
    match text {
        Some(t) => t.clone(),
        None => String::from_str("N/A"),
    }
}

/// Writes the address of a chart of a node.
fn chart_address(node_id: &str, chart: &str) -> (href: String)
    ensures
        href@ == chart_href(node_id@, chart@),
{
    let mut href = String::from_str("/ui/node/");
    href.append(node_id);
    href.append("/");
    href.append(chart);
    href.append(".svg");
    href
}

/// Render the dashboard of a node.
pub fn render(node: &NodeDetails) -> (html: String)
    requires
        can_shorten(node@.node_id),
    ensures
        html@ == node_page(node@),
{
    let node_id = node.node_id.as_str();
    let mut extra_styles = String::from_str(styles::HEADER);
    extra_styles.append(styles::BUTTONS);
    extra_styles.append(styles::NODE_DASHBOARD);
    let short_id = shorten_uuid(node_id);
    let hostname = text_or_na(&node.hostname);
    let os = text_or_na(&node.os_name);
    let kernel = text_or_na(&node.kernel_version);
    let arch = text_or_na(&node.cpu_arch);
    let cores = text_or_na(&node.cpu_cores);
    let memory = text_or_na(&node.memory_total_gb);
    let hostname_item = meta_item("Hostname", hostname.as_str());
    let os_item = meta_item("OS", os.as_str());
    let kernel_item = meta_item("Kernel", kernel.as_str());
    let arch_item = meta_item("CPU Arch", arch.as_str());
    let cores_item = meta_item("CPU Cores", cores.as_str());
    let memory_item = meta_item("Memory", memory.as_str());
    let mut header = String::from_str("        <header>\n            <div class=\"breadcrumb\"><a href=\"/ui\">\u{2190} Back to Dashboard</a></div>\n            <h1>Node: ");
    header.append(short_id.as_str());
    header.append("</h1>\n            <p class=\"node-id-full\">");
    header.append(node_id);
    header.append("</p>\n            <div class=\"node-meta\">\n                ");
    header.append(hostname_item.as_str());
    header.append("\n                ");
    header.append(os_item.as_str());
    header.append("\n                ");
    header.append(kernel_item.as_str());
    header.append("\n                ");
    header.append(arch_item.as_str());
    header.append("\n                ");
    header.append(cores_item.as_str());
    header.append("\n                ");
    header.append(memory_item.as_str());
    header.append("\n            </div>\n        </header>");
    let cpu_href = chart_address(node_id, "cpu");
    let memory_href = chart_address(node_id, "memory");
    let temperature_href = chart_address(node_id, "temperature");
    let cpu_card = chart_card("CPU Usage", cpu_href.as_str(), "CPU Usage");
    let memory_card = chart_card("Memory Usage", memory_href.as_str(), "Memory Usage");
    let temperature_card = chart_card("Temperature", temperature_href.as_str(), "Temperature");
    let mut charts = String::from_str("        <div class=\"charts-section\">\n            <h2>System Metrics (Last 24 Hours)</h2>\n            <div class=\"charts-grid\">\n                ");
    charts.append(cpu_card.as_str());
    charts.append("\n                ");
    charts.append(memory_card.as_str());
    charts.append("\n                ");
    charts.append(temperature_card.as_str());
    charts.append("\n            </div>\n        </div>");
    let cpu_button = button(cpu_href.as_str(), "Download CPU Chart", "secondary");
    let memory_button = button(memory_href.as_str(), "Download Memory Chart", "secondary");
    let temperature_button = button(temperature_href.as_str(), "Download Temp Chart", "secondary");
    let mut actions = String::from_str("        <div class=\"actions\">\n            ");
    actions.append(cpu_button.as_str());
    actions.append("\n            ");
    actions.append(memory_button.as_str());
    actions.append("\n            ");
    actions.append(temperature_button.as_str());
    actions.append("\n        </div>");
    let mut content = header;
    content.append("\n");
    content.append(charts.as_str());
    content.append("\n");
    content.append(actions.as_str());
    let mut title = String::from_str("Node ");
    title.append(short_id.as_str());
    layout::render(title.as_str(), content.as_str(), extra_styles.as_str())
}

} // verus!
