//! The small value types every backend produces: confidences, time spans,
//! error kinds and provenance records.

use vstd::prelude::*;

verus! {

/// A confidence score, held as the bit pattern of the `f32` in `[0, 1]` that
/// the provider reported (already clamped into range by the caller).
///
/// Nothing in this crate computes with the score; it is carried from the
/// provider's answer to the span or segment it belongs to.
#[derive(Clone, Copy, Debug, PartialEq, Eq, Structural)]
pub struct Confidence {
    pub bits: u32,
}

impl Confidence {
    /// The score `0.0`.
    pub fn zero() -> (c: Confidence)
        ensures
            c.bits == 0,
    {
        Confidence { bits: 0 }
    }
}

/// A span of audio in whole milliseconds.
#[derive(Clone, Copy, Debug, PartialEq, Eq, Structural)]
pub struct TimeSpan {
    pub start_ms: u64,
    pub end_ms: u64,
}

impl TimeSpan {
    /// The span from `start_ms` to `end_ms`.
    pub fn from_millis(start_ms: u64, end_ms: u64) -> (span: TimeSpan)
        ensures
            span.start_ms == start_ms,
            span.end_ms == end_ms,
    {
        TimeSpan { start_ms, end_ms }
    }
}

/// How a failure is reported upward: the network failed, or the provider
/// answered badly.
#[derive(Clone, Copy, Debug, PartialEq, Eq, Structural)]
pub enum ErrorKind {
    /// The request never got a usable answer.
    Transport,
    /// The provider answered, but not with something usable.
    Provider,
}

/// The provenance a backend records for the model behind an answer.
#[derive(Clone, Debug)]
pub struct ModelEvent {
    pub name: String,
    pub version: Option<String>,
    pub contextual: bool,
}

} // verus!
