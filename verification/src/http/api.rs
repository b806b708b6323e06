//! The ingestion endpoint and the health check.
//!
//! A batch is admitted in three steps: the size of the body is checked, the
//! body is parsed, the batch is handed to the writer's queue. Each step can
//! end the request with an error; only a body within the limit is ever
//! parsed, and only a parsed batch is ever queued. The steps are decided
//! here; the caller reads, parses and queues.

use crate::http::response::{
    ACCEPTED, BAD_REQUEST, INTERNAL_SERVER_ERROR, NOT_FOUND, OK, PAYLOAD_TOO_LARGE,
};
use crate::http::types::{ErrorResponse, HealthResponse, ProbeDataBatch, SuccessResponse};
use crate::http::ui::layout::VERSION;
use crate::http::validate::{
    max_request_size, validate_request_size, within_limit, ValidationError, MAX_REQUEST_SIZE,
};
use crate::point::batch_view;
use crate::store::writer::{CommandView, WriteCommand};
use vstd::prelude::*;
use vstd::string::*;

verus! {

/// The body of a response of the API.
#[derive(Debug)]
pub enum ApiBody {
    Success(SuccessResponse),
    Health(HealthResponse),
    Error(ErrorResponse),
}

/// A response of the API: a status code and a body to send as JSON.
#[derive(Debug)]
pub struct ApiReply {
    pub status: u16,
    pub body: ApiBody,
}

/// The body of a response in mathematical terms.
pub enum ApiBodyView {
    Success { status: Seq<char> },
    Health { status: Seq<char>, version: Seq<char>, max_request_size_bytes: usize },
    Error { error: Seq<char> },
}

/// A response in mathematical terms.
pub struct ApiReplyView {
    pub status: u16,
    pub body: ApiBodyView,
}

impl View for ApiReply {
    type V = ApiReplyView;

    open spec fn view(&self) -> ApiReplyView {
        ApiReplyView {
            status: self.status,
            body: match self.body {
                ApiBody::Success(body) => ApiBodyView::Success { status: body.status@ },
                ApiBody::Health(body) => ApiBodyView::Health {
                    status: body.status@,
                    version: body.version@,
                    max_request_size_bytes: body.max_request_size_bytes,
                },
                ApiBody::Error(body) => ApiBodyView::Error { error: body.error@ },
            },
        }
    }
}

/// The response that reports an error.
pub open spec fn error_reply(status: u16, message: Seq<char>) -> ApiReplyView {
    ApiReplyView { status, body: ApiBodyView::Error { error: message } }
}

/// JSON error response.
pub fn json_error(status: u16, message: &str) -> (reply: ApiReply)
    ensures
        reply@ == error_reply(status, message@),
{
    ApiReply { status, body: ApiBody::Error(ErrorResponse { error: String::from_str(message) }) }
}

/// The response to a batch that was queued.
pub open spec fn accepted_reply() -> ApiReplyView {
    ApiReplyView { status: ACCEPTED, body: ApiBodyView::Success { status: "accepted"@ } }
}

/// What the handler of a batch does next.
#[derive(Debug, Clone, Copy, PartialEq, Eq, Structural)]
pub enum IngestStep {
    /// Read the body of the request.
    ReadBody,
    /// Parse the body as a batch.
    ParseBody,
    /// Hand the batch to the writer's queue.
    QueueBatch,
    /// The response is decided.
    Finished,
}

/// The state of the handler of one request.
pub struct Ingest {
    next: IngestStep,
}

impl Ingest {
    /// What the handler does next.
    pub closed spec fn next(&self) -> IngestStep {
        self.next
    }

    /// The handler of a request that has just come in.
    pub fn new() -> (ingest: Ingest)
        ensures
            ingest.next() == IngestStep::ReadBody,
    {
        Ingest { next: IngestStep::ReadBody }
    }

    /// What the handler does next.
    pub fn next_step(&self) -> (step: IngestStep)
        ensures
            step == self.next(),
    {
        self.next
    }

    /// The size guard. Takes the size of the body, or nothing where the
    /// body could not be read. A body of at most the maximum size goes on
    /// to parsing; any other ends the request before it is parsed.
    pub fn body_read(&mut self, size: Option<usize>) -> (rejected: Option<ApiReply>)
        requires
            old(self).next() == IngestStep::ReadBody,
        ensures
            match size {
                None => rejected is Some && rejected->0@ == error_reply(
                    BAD_REQUEST,
                    "Failed to read body"@,
                ),
                Some(n) => if within_limit(n) {
                    rejected is None
                } else {
                    rejected is Some && rejected->0@ == error_reply(
                        PAYLOAD_TOO_LARGE,
                        ValidationError::RequestTooLarge { size: n, max: MAX_REQUEST_SIZE }.message(),
                    )
                },
            },
            final(self).next() == if rejected is None {
                IngestStep::ParseBody
            } else {
                IngestStep::Finished
            },
    {
        match size {
            None => {
                self.next = IngestStep::Finished;
                Some(json_error(BAD_REQUEST, "Failed to read body"))
            },
            Some(n) => match validate_request_size(n) {
                Ok(_) => {
                    self.next = IngestStep::ParseBody;
                    None
                },
                Err(e) => {
                    self.next = IngestStep::Finished;
                    let message = e.to_string();
                    Some(json_error(PAYLOAD_TOO_LARGE, message.as_str()))
                },
            },
        }
    }

    /// Takes the batch that the body was parsed to, or nothing where the
    /// body is not a batch. A batch goes on to the queue, whole; no part of
    /// a malformed body is accepted.
    pub fn body_parsed(&mut self, batch: Option<ProbeDataBatch>) -> (command: Result<
        WriteCommand,
        ApiReply,
    >)
        requires
            old(self).next() == IngestStep::ParseBody,
        ensures
            match batch {
                None => command is Err && command->Err_0@ == error_reply(
                    BAD_REQUEST,
                    "Invalid JSON"@,
                ),
                Some(parsed) => command is Ok && command->Ok_0@ == CommandView::InsertBatch(
                    batch_view(parsed.data@),
                ),
            },
            final(self).next() == if command is Ok {
                IngestStep::QueueBatch
            } else {
                IngestStep::Finished
            },
    {
        match batch {
            None => {
                self.next = IngestStep::Finished;
                Err(json_error(BAD_REQUEST, "Invalid JSON"))
            },
            Some(parsed) => {
                self.next = IngestStep::QueueBatch;
                Ok(WriteCommand::InsertBatch(parsed.data))
            },
        }
    }

    /// Takes whether the queue took the batch. An accepted batch is queued
    /// for writing, not yet written; a closed queue is the collector's
    /// failure, not the client's.
    pub fn batch_queued(&mut self, queued: bool) -> (reply: ApiReply)
        requires
            old(self).next() == IngestStep::QueueBatch,
        ensures
            reply@ == if queued {
                accepted_reply()
            } else {
                error_reply(INTERNAL_SERVER_ERROR, "Failed to queue write"@)
            },
            final(self).next() == IngestStep::Finished,
    {
        self.next = IngestStep::Finished;
        if queued {
            ApiReply {
                status: ACCEPTED,
                body: ApiBody::Success(SuccessResponse { status: String::from_str("accepted") }),
            }
        } else {
            json_error(INTERNAL_SERVER_ERROR, "Failed to queue write")
        }
    }
}

/// The response to the health check.
pub open spec fn health_reply() -> ApiReplyView {
    ApiReplyView {
        status: OK,
        body: ApiBodyView::Health {
            status: "healthy"@,
            version: VERSION@,
            max_request_size_bytes: MAX_REQUEST_SIZE,
        },
    }
}

/// Answers the health check.
pub fn handle_health() -> (reply: ApiReply)
    ensures
        reply@ == health_reply(),
{
    ApiReply {
        status: OK,
        body: ApiBody::Health(
            HealthResponse {
                status: String::from_str("healthy"),
                version: String::from_str(VERSION),
                max_request_size_bytes: max_request_size(),
            },
        ),
    }
}

/// Answers a request for which there is no route.
pub fn handle_not_found() -> (reply: ApiReply)
    ensures
        reply@ == error_reply(NOT_FOUND, "Not found"@),
{
    json_error(NOT_FOUND, "Not found")
}

} // verus!
