//! Size guard applied to request bodies before they are parsed.

use crate::text::{decimal, u64_to_string};
use vstd::prelude::*;
use vstd::string::*;

verus! {

/// Largest request body, in bytes, that is admitted for parsing (10 MiB).
pub const MAX_REQUEST_SIZE: usize = 10485760;

/// Why a request was turned away before parsing.
#[derive(Debug)]
pub enum ValidationError {
    /// The body holds `size` bytes, more than the `max` that is admitted.
    RequestTooLarge { size: usize, max: usize },
}

impl ValidationError {
    /// The text of the error, as shown to the client.
    pub open spec fn message(self) -> Seq<char> {
        match self {
            ValidationError::RequestTooLarge { size, max } => "Request too large: "@ + decimal(
                size as nat,
            ) + " bytes (max: "@ + decimal(max as nat) + ")"@,
        }
    }

    /// Renders the error for the client.
    pub fn to_string(&self) -> (text: String)
        ensures
            text@ == self.message(),
    {
        match self {
            ValidationError::RequestTooLarge { size, max } => {
                let mut text = String::from_str("Request too large: ");
                let size_text = u64_to_string(*size as u64);
                text.append(size_text.as_str());
                text.append(" bytes (max: ");
                let max_text = u64_to_string(*max as u64);
                text.append(max_text.as_str());
                text.append(")");
                text
            },
        }
    }
}

/// Whether a body of `body_size` bytes is admitted for parsing.
pub open spec fn within_limit(body_size: usize) -> bool {
    body_size <= MAX_REQUEST_SIZE
}

/// Validates the size of a request body, once read, against the maximum.
///
/// A body of exactly the maximum size is admitted; one byte more is not.
pub fn validate_request_size(body_size: usize) -> (result: Result<(), ValidationError>)
    ensures
        within_limit(body_size) <==> result is Ok,
        !within_limit(body_size) ==> result == Err::<(), ValidationError>(
            ValidationError::RequestTooLarge { size: body_size, max: MAX_REQUEST_SIZE },
        ),
{
    if body_size > MAX_REQUEST_SIZE {
        return Err(ValidationError::RequestTooLarge { size: body_size, max: MAX_REQUEST_SIZE });
    }
    Ok(())
}

/// Returns the maximum allowed request size in bytes.
pub fn max_request_size() -> (max: usize)
    ensures
        max == MAX_REQUEST_SIZE,
        max == 10 * 1024 * 1024,
{
    MAX_REQUEST_SIZE
}

} // verus!
