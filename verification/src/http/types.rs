//! The bodies of the API: what a client sends and what it is answered.

use crate::point::ProbeDataPoint;
use vstd::prelude::*;
use vstd::string::*;

verus! {

/// Request payload for probe data submission.
#[derive(Debug)]
pub struct ProbeDataBatch {
    pub data: Vec<ProbeDataPoint>,
}

/// Standard success response.
#[derive(Debug)]
pub struct SuccessResponse {
    pub status: String,
}

/// Health check response.
#[derive(Debug)]
pub struct HealthResponse {
    pub status: String,
    pub version: String,
    pub max_request_size_bytes: usize,
}

/// Standard error response.
#[derive(Debug)]
pub struct ErrorResponse {
    pub error: String,
}

} // verus!
