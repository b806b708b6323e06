//! The page that reports a failure.

use crate::http::ui::components::{button, button_markup};
use crate::http::ui::layout;
use crate::http::ui::styles;
use vstd::prelude::*;
use vstd::string::*;

verus! {

/// The content of the error page: the title, the message, and a way back.
pub open spec fn error_content(title: Seq<char>, message: Seq<char>) -> Seq<char> {
    "        <div class=\"error-container\">\n            <h1>\u{26A0}\u{FE0F} "@ + title
        + "</h1>\n            <p>"@ + message + "</p>\n            "@ + button_markup(
        "/ui"@,
        "Back to Dashboard"@,
        "primary"@,
    ) + "\n        </div>"@
}

/// The error page, with `version` in its footer.
pub open spec fn error_page_of_version(
    title: Seq<char>,
    message: Seq<char>,
    version: Seq<char>,
) -> Seq<char> {
    layout::page_of_version(
        "Error"@,
        error_content(title, message),
        styles::ERROR_PAGE@,
        version,
    )
}

/// The error page.
pub open spec fn error_page(title: Seq<char>, message: Seq<char>) -> Seq<char> {
    error_page_of_version(title, message, layout::VERSION@)
}

/// Renders the page that reports a failure.
pub fn render(title: &str, message: &str) -> (html: String)
    ensures
        html@ == error_page(title@, message@),
{
    render_version(title, message, layout::VERSION)
}

/// Renders the page that reports a failure, with `version` in its footer.
pub fn render_version(title: &str, message: &str, version: &str) -> (html: String)
    ensures
        html@ == error_page_of_version(title@, message@, version@),
{
    let back = button("/ui", "Back to Dashboard", "primary");
    let mut content = String::from_str(
        "        <div class=\"error-container\">\n            <h1>\u{26A0}\u{FE0F} ",
    );
    content.append(title);
    content.append("</h1>\n            <p>");
    content.append(message);
    content.append("</p>\n            ");
    content.append(back.as_str());
    content.append("\n        </div>");
    layout::render_version("Error", content.as_str(), styles::ERROR_PAGE, version)
}

} // verus!
