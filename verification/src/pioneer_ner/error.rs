//! Failures of the Pioneer backend, and how each is reported upward.

use vstd::prelude::*;

use crate::primitive::ErrorKind;

verus! {

/// Declares `reqwest::Error` to the verifier; values of it are carried, never
/// inspected.
#[verifier::external_type_specification]
#[verifier::external_body]
pub struct ExReqwestError(reqwest::Error);

/// Errors surfaced by the Pioneer backend.
#[derive(Debug)]
pub enum PioneerError {
    /// HTTP / transport failure: client construction, network I/O.
    Transport(reqwest::Error),
    /// The API rejected the request, with the status and the body it sent.
    Rejected { status: u16, body: String },
    /// The API answered, but not in a shape this backend can read.
    Protocol(String),
}

impl PioneerError {
    /// Transport failures are reported as [`ErrorKind::Transport`]; anything
    /// the provider actually answered as [`ErrorKind::Provider`].
    pub fn kind(&self) -> (kind: ErrorKind)
        ensures
            kind == (match self {
                PioneerError::Transport(_) => ErrorKind::Transport,
                _ => ErrorKind::Provider,
            }),
    {
        match self {
            PioneerError::Transport(_) => ErrorKind::Transport,
            PioneerError::Rejected { .. } | PioneerError::Protocol(_) => ErrorKind::Provider,
        }
    }
}

} // verus!
