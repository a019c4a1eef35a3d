//! The self-hosted `/transcribe` service's request body.

pub mod request;
