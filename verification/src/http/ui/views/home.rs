//! The home page: every known node on a card.

use crate::http::ui::components::{
    button, button_markup, info_row, info_row_markup, stat_card, stat_card_markup,
};
use crate::http::ui::helpers::{
    can_display, can_shorten, display_time, format_timestamp, shorten_uuid, shortened,
};
use crate::http::ui::layout;
use crate::http::ui::models::{NodeSummary, NodeSummaryView};
use crate::http::ui::styles;
use crate::http::web::summaries_view;
use crate::text::{decimal, u64_to_string};
use vstd::prelude::*;
use vstd::string::*;

verus! {

/// A text to show, or `N/A` where there is none.
pub open spec fn or_na(text: Option<Seq<char>>) -> Seq<char> {
    match text {
        Some(t) => t,
        None => "N/A"@,
    }
}

/// The time at which a node was last seen, as shown.
pub open spec fn last_seen_text(last_seen: Option<Seq<char>>) -> Seq<char> {
    match last_seen {
        Some(t) => display_time(t),
        None => "N/A"@,
    }
}

/// Whether the card of a node can be rendered: its identifier and its
/// timestamp can be cut for display.
pub open spec fn can_render_card(node: NodeSummaryView) -> bool {
    &&& can_shorten(node.node_id)
    &&& node.last_seen matches Some(t) ==> can_display(t)
}

/// The markup of the card of a node.
pub open spec fn card_markup(node: NodeSummaryView) -> Seq<char> {
    "            <div class=\"node-card\">\n                <div class=\"node-header\">\n                    <h3>Node: "@ +
        shortened(node.node_id) +
        "</h3>\n                    <span class=\"status-badge\">Active</span>\n                </div>\n                <div class=\"node-info\">\n                    "@ +
        info_row_markup("Full ID"@, node.node_id) +
        "\n                    "@ +
        info_row_markup("CPU Cores"@, or_na(node.cpu_cores)) +
        "\n                    "@ +
        info_row_markup("Memory"@, or_na(node.memory_total_gb)) +
        "\n                    "@ +
        info_row_markup("Temp Sensors"@, or_na(node.temp_sensors)) +
        "\n                    "@ +
        info_row_markup("Last Seen"@, last_seen_text(node.last_seen)) +
        "\n                </div>\n                <div class=\"node-actions\">\n                    "@ +
        button_markup("/ui/node/"@ + node.node_id, "View Dashboard"@, "primary"@) +
        "\n                    "@ +
        button_markup("/ui/node/"@ + node.node_id + "/cpu.svg"@, "CPU Chart"@, "secondary"@) +
        "\n                    "@ +
        button_markup("/ui/node/"@ + node.node_id + "/memory.svg"@, "Memory Chart"@, "secondary"@) +
        "\n                </div>\n            </div>\n"@
}

/// The markup of the cards of a list of nodes, one after the other.
pub open spec fn cards_markup(nodes: Seq<NodeSummaryView>) -> Seq<char>
    decreases nodes.len(),
{
    if nodes.len() == 0 {
        Seq::empty()
    } else {
        cards_markup(nodes.drop_last()) + card_markup(nodes.last())
    }
}

/// The part of the page that lists the nodes, or says that there is none.
pub open spec fn nodes_markup(nodes: Seq<NodeSummaryView>) -> Seq<char> {
    if nodes.len() == 0 {
        "        <div class=\"no-data\">\n            <p>No nodes detected yet. Waiting for metrics...</p>\n        </div>"@
    } else {
        "        <div class=\"nodes-grid\">\n"@ +
            cards_markup(nodes) +
            "\n        </div>"@
    }
}

/// The header of the page, with the number of nodes.
pub open spec fn header_markup(count: nat) -> Seq<char> {
    "        <header>\n            <h1>\u{1F31E} Helioscope</h1>\n            <p class=\"subtitle\">System Monitoring Dashboard</p>\n"@ +
        ("            <div class=\"stats\">\n                "@ +
        stat_card_markup(decimal(count), "Active Nodes"@) +
        "\n                "@ +
        stat_card_markup("\u{2713}"@, "Collector Running"@) +
        "\n            </div>"@) +
        "\n        </header>"@
}

/// The styles of the home page.
pub open spec fn home_styles() -> Seq<char> {
    styles::HEADER@ + styles::STATS@ + styles::NODE_CARDS@ + styles::INFO_ROWS@
}

/// The home page.
pub open spec fn home_page(nodes: Seq<NodeSummaryView>) -> Seq<char> {
    layout::page(
        "Dashboard"@,
        header_markup(nodes.len()) + "\n"@ + nodes_markup(nodes),
        home_styles(),
    )
}

/// The text of an optional field, or `N/A`.
fn text_or_na(text: &Option<String>) -> (shown: String)
    ensures
        shown@ == or_na(crate::http::ui::models::opt_view(*text)),
{
    match text {
        Some(t) => t.clone(),
        None => String::from_str("N/A"),
    }
}

/// Renders the card of a node.
pub fn render_node_card(node: &NodeSummary) -> (markup: String)
    requires
        can_render_card(node@),
    ensures
        markup@ == card_markup(node@),
{
    let node_id = node.node_id.as_str();
    let short_id = shorten_uuid(node_id);
    let cpu = text_or_na(&node.cpu_cores);
    let memory = text_or_na(&node.memory_total_gb);
    let sensors = text_or_na(&node.temp_sensors);
    let last_seen = match &node.last_seen {
        Some(t) => format_timestamp(t.as_str()),
        None => String::from_str("N/A"),
    };
    let full_id_row = info_row("Full ID", node_id);
    let cpu_row = info_row("CPU Cores", cpu.as_str());
    let memory_row = info_row("Memory", memory.as_str());
    let sensors_row = info_row("Temp Sensors", sensors.as_str());
    let last_seen_row = info_row("Last Seen", last_seen.as_str());
    let mut dashboard_href = String::from_str("/ui/node/");
    dashboard_href.append(node_id);
    let mut cpu_href = String::from_str("/ui/node/");
    cpu_href.append(node_id);
    cpu_href.append("/cpu.svg");
    let mut memory_href = String::from_str("/ui/node/");
    memory_href.append(node_id);
    memory_href.append("/memory.svg");
    let dashboard_button = button(dashboard_href.as_str(), "View Dashboard", "primary");
    let cpu_button = button(cpu_href.as_str(), "CPU Chart", "secondary");
    let memory_button = button(memory_href.as_str(), "Memory Chart", "secondary");
    let mut markup = String::from_str("            <div class=\"node-card\">\n                <div class=\"node-header\">\n                    <h3>Node: ");
    markup.append(short_id.as_str());
    markup.append("</h3>\n                    <span class=\"status-badge\">Active</span>\n                </div>\n                <div class=\"node-info\">\n                    ");
    markup.append(full_id_row.as_str());
    markup.append("\n                    ");
    markup.append(cpu_row.as_str());
    markup.append("\n                    ");
    markup.append(memory_row.as_str());
    markup.append("\n                    ");
    markup.append(sensors_row.as_str());
    markup.append("\n                    ");
    markup.append(last_seen_row.as_str());
    markup.append("\n                </div>\n                <div class=\"node-actions\">\n                    ");
    markup.append(dashboard_button.as_str());
    markup.append("\n                    ");
    markup.append(cpu_button.as_str());
    markup.append("\n                    ");
    markup.append(memory_button.as_str());
    markup.append("\n                </div>\n            </div>\n");
    markup
}

/// Render the home page: the number of nodes and a card for each.
pub fn render(nodes: &Vec<NodeSummary>) -> (html: String)
    requires
        forall|i: int| 0 <= i < nodes@.len() ==> can_render_card(#[trigger] nodes@[i]@),
    ensures
        html@ == home_page(summaries_view(nodes@)),
{
    let ghost listed = summaries_view(nodes@);
    let mut extra_styles = String::from_str(styles::HEADER);
    extra_styles.append(styles::STATS);
    extra_styles.append(styles::NODE_CARDS);
    extra_styles.append(styles::INFO_ROWS);
    let count = u64_to_string(nodes.len() as u64);
    let count_card = stat_card(count.as_str(), "Active Nodes");
    let running_card = stat_card("\u{2713}", "Collector Running");
    let mut stats = String::from_str("            <div class=\"stats\">\n                ");
    stats.append(count_card.as_str());
    stats.append("\n                ");
    stats.append(running_card.as_str());
    stats.append("\n            </div>");
    let mut header = String::from_str("        <header>\n            <h1>\u{1F31E} Helioscope</h1>\n            <p class=\"subtitle\">System Monitoring Dashboard</p>\n");
    header.append(stats.as_str());
    header.append("\n        </header>");
    let nodes_html = if nodes.len() == 0 {
        String::from_str("        <div class=\"no-data\">\n            <p>No nodes detected yet. Waiting for metrics...</p>\n        </div>")
    } else {
        let mut cards = String::new();
        let mut i: usize = 0;
        assert(listed.take(0) =~= Seq::<NodeSummaryView>::empty());
        while i < nodes.len()
            invariant
                0 <= i <= nodes@.len(),
                listed == summaries_view(nodes@),
                forall|k: int| 0 <= k < nodes@.len() ==> can_render_card(#[trigger] nodes@[k]@),
                cards@ == cards_markup(listed.take(i as int)),
            decreases nodes@.len() - i,
        {
            let card = render_node_card(&nodes[i]);
            proof {
                assert(listed.take(i + 1).drop_last() =~= listed.take(i as int));
                assert(listed.take(i + 1).last() == nodes@[i as int]@);
            }
            cards.append(card.as_str());
            i += 1;
        }
        assert(listed.take(i as int) =~= listed);
        let mut grid = String::from_str("        <div class=\"nodes-grid\">\n");
        grid.append(cards.as_str());
        grid.append("\n        </div>");
        grid
    };
    let mut content = header;
    content.append("\n");
    content.append(nodes_html.as_str());
    layout::render("Dashboard", content.as_str(), extra_styles.as_str())
}

} // verus!
