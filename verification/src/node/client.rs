//! Delivery of a batch to the collector: how one attempt ended.

use vstd::prelude::*;

verus! {

/// Why an attempt to deliver a batch failed.
#[derive(Debug, Clone, Copy, PartialEq, Eq, Structural)]
pub enum DeliveryError {
    /// The collector could not be reached, or gave no answer.
    Transport,
    /// The collector answered, but not with a success.
    Rejected { status: u16 },
}

/// Whether a status code reports success.
pub open spec fn is_success(status: u16) -> bool {
    200 <= status < 300
}

/// How an attempt ended, given the status that the collector answered
/// with, or nothing where no answer came.
pub open spec fn outcome_of(answer: Option<u16>) -> Result<(), DeliveryError> {
    match answer {
        None => Err(DeliveryError::Transport),
        Some(status) => if is_success(status) {
            Ok(())
        } else {
            Err(DeliveryError::Rejected { status })
        },
    }
}

/// Tells how an attempt to deliver a batch ended.
pub fn delivery_outcome(answer: Option<u16>) -> (outcome: Result<(), DeliveryError>)
    ensures
        outcome == outcome_of(answer),
{
    match answer {
        None => Err(DeliveryError::Transport),
        Some(status) => {
            if status >= 200 && status < 300 {
                Ok(())
            } else {
                Err(DeliveryError::Rejected { status })
            }
        },
    }
}

} // verus!
