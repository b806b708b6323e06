//! A page as a value: what it is filled in with, to be rendered later.

use crate::http::ui::layout::VERSION;
use crate::http::ui::views::error::{error_page_of_version, render_version};
use vstd::prelude::*;
use vstd::string::*;

verus! {

/// Error page template.
pub struct ErrorTemplate<'a> {
    pub title: &'a str,
    pub message: &'a str,
    pub version: &'a str,
}

impl<'a> ErrorTemplate<'a> {
    /// The error page of this version of the collector.
    pub fn new(title: &'a str, message: &'a str) -> (template: ErrorTemplate<'a>)
        ensures
            template.title@ == title@,
            template.message@ == message@,
            template.version@ == VERSION@,
    {
        ErrorTemplate { title, message, version: VERSION }
    }

    /// Renders the page.
    pub fn render(&self) -> (html: String)
        ensures
            html@ == error_page_of_version(self.title@, self.message@, self.version@),
    {
        render_version(self.title, self.message, self.version)
    }
}

} // verus!
