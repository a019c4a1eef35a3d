//! Outgoing body of `POST /gliner-2`.

use vstd::prelude::*;

verus! {

/// The task this backend asks for. Pioneer routes on it.
pub const TASK: &'static str = "extract_entities";

/// One extraction request.
#[derive(Debug)]
pub struct WireRequest<'a> {
    pub task: &'static str,
    pub text: &'a str,
    /// The label names to extract.
    pub schema: Vec<String>,
    /// The per-label confidence cutoff, as the bit pattern of an `f32`.
    pub threshold: u32,
    /// Always on: without it the answer carries no confidence.
    pub include_confidence: bool,
    /// Always on: without it the answer carries no offsets.
    pub include_spans: bool,
    /// Keeps the label-keyed answer shape that is decoded.
    pub format_results: bool,
    /// `Some(false)` asks Pioneer not to persist the request; omitted
    /// otherwise, so Pioneer's own default applies.
    pub store: Option<bool>,
}

impl<'a> WireRequest<'a> {
    /// A request over `text` for `labels`.
    pub fn new(text: &'a str, labels: Vec<String>, threshold: u32, zero_retention: bool) -> (req:
        WireRequest<'a>)
        ensures
            req.task@ == TASK@,
            req.text == text,
            req.schema == labels,
            req.threshold == threshold,
            req.include_confidence,
            req.include_spans,
            req.format_results,
            req.store == (if zero_retention {
                Some(false)
            } else {
                None
            }),
    {
        WireRequest {
            task: TASK,
            text,
            schema: labels,
            threshold,
            include_confidence: true,
            include_spans: true,
            format_results: true,
            store: if zero_retention {
                Some(false)
            } else {
                None
            },
        }
    }
}

} // verus!
