//! Responses: a status code and a body of text.

use vstd::prelude::*;
use vstd::string::*;

verus! {

/// The request succeeded.
pub const OK: u16 = 200;

/// The batch was queued for writing.
pub const ACCEPTED: u16 = 202;

/// The request was malformed.
pub const BAD_REQUEST: u16 = 400;

/// Nothing is served at the address.
pub const NOT_FOUND: u16 = 404;

/// The body of the request exceeds the maximum.
pub const PAYLOAD_TOO_LARGE: u16 = 413;

/// The collector failed.
pub const INTERNAL_SERVER_ERROR: u16 = 500;

/// HTML response (200 OK).
pub fn html(content: &str) -> (response: (u16, String))
    ensures
        response.0 == OK,
        response.1@ == content@,
{
    (OK, String::from_str(content))
}

/// HTML error response.
pub fn html_error(status: u16, content: &str) -> (response: (u16, String))
    ensures
        response.0 == status,
        response.1@ == content@,
{
    (status, String::from_str(content))
}

/// SVG response (200 OK).
pub fn svg(content: &str) -> (response: (u16, String))
    ensures
        response.0 == OK,
        response.1@ == content@,
{
    (OK, String::from_str(content))
}

/// The image that stands for a chart that could not be drawn: the message
/// on a plain ground.
pub open spec fn error_image(message: Seq<char>) -> Seq<char> {
    "<svg xmlns=\"http://www.w3.org/2000/svg\" width=\"800\" height=\"400\">\n    <rect width=\"800\" height=\"400\" fill=\"#f8f9fa\"/>\n    <text x=\"400\" y=\"200\" text-anchor=\"middle\" font-family=\"sans-serif\" font-size=\"16\" fill=\"#dc3545\">\n        Error: "@
        + message + "\n    </text>\n</svg>"@
}

/// SVG error response with embedded error message.
pub fn svg_error(message: &str) -> (response: (u16, String))
    ensures
        response.0 == INTERNAL_SERVER_ERROR,
        response.1@ == error_image(message@),
{
    let mut image = String::from_str(
        "<svg xmlns=\"http://www.w3.org/2000/svg\" width=\"800\" height=\"400\">\n    <rect width=\"800\" height=\"400\" fill=\"#f8f9fa\"/>\n    <text x=\"400\" y=\"200\" text-anchor=\"middle\" font-family=\"sans-serif\" font-size=\"16\" fill=\"#dc3545\">\n        Error: ",
    );
    image.append(message);
    image.append("\n    </text>\n</svg>");
    (INTERNAL_SERVER_ERROR, image)
}

} // verus!
