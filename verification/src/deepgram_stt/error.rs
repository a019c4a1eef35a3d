//! Failures of the Deepgram backend, and how each is reported upward.

use vstd::prelude::*;

use crate::primitive::ErrorKind;

verus! {

/// Declares `deepgram::DeepgramError` to the verifier; values of it are
/// carried, never inspected.
#[verifier::external_type_specification]
#[verifier::external_body]
pub struct ExDeepgramError(deepgram::DeepgramError);

/// Which kind of SDK failure a `deepgram::DeepgramError` is.
#[derive(Clone, Copy, Debug, PartialEq, Eq, Structural)]
pub enum SdkFailure {
    /// The API returned an error body.
    Api,
    /// The HTTP request could not be generated.
    Http,
    /// The HTTP request failed.
    Reqwest,
    /// I/O failed.
    Io,
    /// The base URL is not valid.
    InvalidUrl,
    /// Anything else: a body that would not decode, rejected options, a
    /// stream or websocket failure.
    Other,
}

/// Which kind of SDK failure `err` is, by its variant: `DeepgramApiError`
/// is `Api`, `HttpError` is `Http`, `ReqwestError` is `Reqwest`, `IoError`
/// is `Io`, `InvalidUrl` is `InvalidUrl`, and every other variant is `Other`.
pub uninterp spec fn sdk_failure_of(err: deepgram::DeepgramError) -> SdkFailure;

/// Tells the variants of a `deepgram::DeepgramError` apart.
#[verifier::external_body]
fn sdk_failure(err: &deepgram::DeepgramError) -> (failure: SdkFailure)
    ensures
        failure == sdk_failure_of(*err),
{
    match err {
        deepgram::DeepgramError::DeepgramApiError { .. } => SdkFailure::Api,
        deepgram::DeepgramError::HttpError(_) => SdkFailure::Http,
        deepgram::DeepgramError::ReqwestError(_) => SdkFailure::Reqwest,
        deepgram::DeepgramError::IoError(_) => SdkFailure::Io,
        deepgram::DeepgramError::InvalidUrl => SdkFailure::InvalidUrl,
        _ => SdkFailure::Other,
    }
}

/// The kind an SDK failure is reported as: transport-shaped failures, where
/// the request never got a usable answer, are [`ErrorKind::Transport`];
/// everything else is the provider answering badly.
pub open spec fn sdk_failure_kind_spec(failure: SdkFailure) -> ErrorKind {
    match failure {
        SdkFailure::Reqwest | SdkFailure::Http | SdkFailure::Io | SdkFailure::InvalidUrl => {
            ErrorKind::Transport
        },
        _ => ErrorKind::Provider,
    }
}

/// The kind an SDK failure is reported as.
pub fn sdk_failure_kind(failure: SdkFailure) -> (kind: ErrorKind)
    ensures
        kind == sdk_failure_kind_spec(failure),
{
    match failure {
        SdkFailure::Reqwest | SdkFailure::Http | SdkFailure::Io | SdkFailure::InvalidUrl => {
            ErrorKind::Transport
        },
        SdkFailure::Api | SdkFailure::Other => ErrorKind::Provider,
    }
}

/// Errors surfaced by the Deepgram backend.
#[derive(Debug)]
pub enum DeepgramBackendError {
    /// The SDK failed: transport, decode, or a rejected request.
    Sdk { failure: SdkFailure, error: deepgram::DeepgramError },
    /// The API answered, but not with a transcript this backend can use.
    Protocol(String),
}

impl DeepgramBackendError {
    /// The error for an SDK failure.
    pub fn from_sdk(error: deepgram::DeepgramError) -> (err: DeepgramBackendError)
        ensures
            err matches DeepgramBackendError::Sdk { failure: f, error: e } && e == error && f
                == sdk_failure_of(error),
    {
        let failure = sdk_failure(&error);
        DeepgramBackendError::Sdk { failure, error }
    }

    /// Anything the network did is [`ErrorKind::Transport`]; anything the
    /// provider actually answered is [`ErrorKind::Provider`].
    pub fn kind(&self) -> (kind: ErrorKind)
        ensures
            kind == (match self {
                DeepgramBackendError::Sdk { failure, .. } => sdk_failure_kind_spec(*failure),
                DeepgramBackendError::Protocol(_) => ErrorKind::Provider,
            }),
    {
        match self {
            DeepgramBackendError::Sdk { failure, .. } => sdk_failure_kind(*failure),
            DeepgramBackendError::Protocol(_) => ErrorKind::Provider,
        }
    }
}

} // verus!
