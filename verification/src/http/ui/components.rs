//! Fragments of markup that the pages are made of. Each fragment is a fixed
//! frame with the given texts set into it as they are.

use vstd::prelude::*;
use vstd::string::*;

verus! {

/// The markup of a button: a link to `href` in the style `variant`.
pub open spec fn button_markup(href: Seq<char>, text: Seq<char>, variant: Seq<char>) -> Seq<char> {
    "<a href=\""@ + href + "\" class=\"btn btn-"@ + variant + "\">"@ + text + "</a>"@
}

/// Render a button/link.
pub fn button(href: &str, text: &str, variant: &str) -> (markup: String)
    ensures
        markup@ == button_markup(href@, text@, variant@),
{
    let mut markup = String::from_str("<a href=\"");
    markup.append(href);
    markup.append("\" class=\"btn btn-");
    markup.append(variant);
    markup.append("\">");
    markup.append(text);
    markup.append("</a>");
    markup
}

/// The markup of a block of the class `class` that holds two parts, of the
/// classes `first` and `second`, in elements of the kind `tag`.
pub open spec fn pair_markup(
    class: Seq<char>,
    tag: Seq<char>,
    first: Seq<char>,
    first_text: Seq<char>,
    second: Seq<char>,
    second_text: Seq<char>,
) -> Seq<char> {
    "<div class=\""@ + class + "\">\n    <"@ + tag + " class=\""@ + first + "\">"@ + first_text
        + "</"@ + tag + ">\n    <"@ + tag + " class=\""@ + second + "\">"@ + second_text + "</"@
        + tag + ">\n</div>"@
}

/// Renders a block of two parts.
fn pair(class: &str, tag: &str, first: &str, first_text: &str, second: &str, second_text: &str) -> (markup:
    String)
    ensures
        markup@ == pair_markup(class@, tag@, first@, first_text@, second@, second_text@),
{
    let mut markup = String::from_str("<div class=\"");
    markup.append(class);
    markup.append("\">\n    <");
    markup.append(tag);
    markup.append(" class=\"");
    markup.append(first);
    markup.append("\">");
    markup.append(first_text);
    markup.append("</");
    markup.append(tag);
    markup.append(">\n    <");
    markup.append(tag);
    markup.append(" class=\"");
    markup.append(second);
    markup.append("\">");
    markup.append(second_text);
    markup.append("</");
    markup.append(tag);
    markup.append(">\n</div>");
    markup
}

/// The markup of an info row: a label and its value.
pub open spec fn info_row_markup(label: Seq<char>, value: Seq<char>) -> Seq<char> {
    pair_markup("info-row"@, "span"@, "info-label"@, label, "info-value"@, value)
}

/// Render an info row (label: value).
pub fn info_row(label: &str, value: &str) -> (markup: String)
    ensures
        markup@ == info_row_markup(label@, value@),
{
    pair("info-row", "span", "info-label", label, "info-value", value)
}

/// The markup of a stat card: a value over its label.
pub open spec fn stat_card_markup(value: Seq<char>, label: Seq<char>) -> Seq<char> {
    pair_markup("stat-card"@, "div"@, "stat-value"@, value, "stat-label"@, label)
}

/// Render a stat card.
pub fn stat_card(value: &str, label: &str) -> (markup: String)
    ensures
        markup@ == stat_card_markup(value@, label@),
{
    pair("stat-card", "div", "stat-value", value, "stat-label", label)
}

/// The markup of a meta item: a label over its value.
pub open spec fn meta_item_markup(label: Seq<char>, value: Seq<char>) -> Seq<char> {
    pair_markup("meta-item"@, "div"@, "meta-label"@, label, "meta-value"@, value)
}

/// Render a meta item (for node details page).
pub fn meta_item(label: &str, value: &str) -> (markup: String)
    ensures
        markup@ == meta_item_markup(label@, value@),
{
    pair("meta-item", "div", "meta-label", label, "meta-value", value)
}

/// The markup of a chart card: a title over the image of the chart.
pub open spec fn chart_card_markup(title: Seq<char>, img_src: Seq<char>, alt: Seq<char>) -> Seq<
    char,
> {
    "<div class=\"chart-card\">\n    <h3>"@ + title
        + "</h3>\n    <div class=\"chart-container\">\n        <img src=\""@ + img_src
        + "\" alt=\""@ + alt + "\" loading=\"lazy\">\n    </div>\n</div>"@
}

/// Render a chart card with embedded image.
pub fn chart_card(title: &str, img_src: &str, alt: &str) -> (markup: String)
    ensures
        markup@ == chart_card_markup(title@, img_src@, alt@),
{
    let mut markup = String::from_str("<div class=\"chart-card\">\n    <h3>");
    markup.append(title);
    markup.append("</h3>\n    <div class=\"chart-container\">\n        <img src=\"");
    markup.append(img_src);
    markup.append("\" alt=\"");
    markup.append(alt);
    markup.append("\" loading=\"lazy\">\n    </div>\n</div>");
    markup
}

} // verus!
