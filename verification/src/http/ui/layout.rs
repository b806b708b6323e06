//! The frame that every page shares.

use crate::http::ui::styles;
use vstd::prelude::*;
use vstd::string::*;

verus! {

/// Version of the collector, as the footer of each page shows it.
pub const VERSION: &'static str = "0.2.0";

/// The opening of a page, up to its title.
pub const PAGE_OPEN: &'static str =
    "<!DOCTYPE html>\n<html lang=\"en\">\n<head>\n    <meta charset=\"UTF-8\">\n    <meta name=\"viewport\" content=\"width=device-width, initial-scale=1.0\">\n    <title>";

/// From the title of a page to its style sheets.
pub const STYLE_OPEN: &'static str = " - Helioscope</title>\n    <style>\n";

/// From the style sheets of a page to its content.
pub const BODY_OPEN: &'static str =
    "\n    </style>\n</head>\n<body>\n    <div class=\"container\">\n";

/// From the content of a page to the version in its footer.
pub const FOOTER_OPEN: &'static str = "\n        <footer>\n            <p>Helioscope v";

/// The end of a page, behind the version.
pub const PAGE_CLOSE: &'static str =
    " | Built with Rust \u{1F980}</p>\n        </footer>\n    </div>\n</body>\n</html>";

/// A complete page: the title in the head, the base and button styles and
/// the page's own behind them, the content in the container, and the footer
/// with the version.
pub open spec fn page_of_version(
    title: Seq<char>,
    content: Seq<char>,
    extra_styles: Seq<char>,
    version: Seq<char>,
) -> Seq<char> {
    PAGE_OPEN@ + title + STYLE_OPEN@ + styles::BASE@ + "\n"@ + styles::BUTTONS@ + "\n"@
        + extra_styles + BODY_OPEN@ + content + FOOTER_OPEN@ + version + PAGE_CLOSE@
}

/// A complete page of this version of the collector.
pub open spec fn page(title: Seq<char>, content: Seq<char>, extra_styles: Seq<char>) -> Seq<char> {
    page_of_version(title, content, extra_styles, VERSION@)
}

/// Render a complete HTML page.
pub fn render(title: &str, content: &str, extra_styles: &str) -> (html: String)
    ensures
        html@ == page(title@, content@, extra_styles@),
{
    render_version(title, content, extra_styles, VERSION)
}

/// Render a complete HTML page whose footer shows `version`.
pub fn render_version(title: &str, content: &str, extra_styles: &str, version: &str) -> (html:
    String)
    ensures
        html@ == page_of_version(title@, content@, extra_styles@, version@),
{
    let mut html = String::from_str(PAGE_OPEN);
    html.append(title);
    html.append(STYLE_OPEN);
    html.append(styles::BASE);
    html.append("\n");
    html.append(styles::BUTTONS);
    html.append("\n");
    html.append(extra_styles);
    html.append(BODY_OPEN);
    html.append(content);
    html.append(FOOTER_OPEN);
    html.append(version);
    html.append(PAGE_CLOSE);
    html
}

} // verus!
