//! The error taxonomy of the client: every failure is surfaced to the
//! immediate caller with a distinguishing kind, never retried or swallowed.
use vstd::prelude::*;

use crate::protocol::Error;

verus! {

/// A request to the server answered with a non-success status code; carries
/// the raw response body for diagnostics.
#[derive(Debug)]
pub struct ErrStatusCode {
    pub code: u16,
    pub body: String,
}

/// Every failure kind the client can surface.
#[derive(Debug)]
pub enum ClientError {
    /// A send was attempted on a batch holding no commands.
    EmptyBatch,
    /// The reply stream was undecodable, or the reply count did not match
    /// the number of submitted commands.
    MalformedResponse,
    /// The caller supplied payload text that is not valid JSON.
    MalformedPayload,
    /// The endpoint resolver failed; carries its message.
    EndpointResolutionFailed(String),
    /// Non-success HTTP status.
    StatusCode(ErrStatusCode),
    /// The result set was empty although one reply was owed.
    NoReply,
    /// The server reported a per-command failure.
    Remote(Error),
    /// A typed result did not decode against its schema.
    Decode,
    /// The batch's mutual-exclusion primitive was poisoned.
    LockContention,
}

} // verus!
