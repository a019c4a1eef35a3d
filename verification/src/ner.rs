//! The entity spans a named-entity backend answers with.

use vstd::prelude::*;

use crate::primitive::Confidence;

verus! {

/// One recognized entity: its label, the provider's confidence, and the byte
/// range it covers in the source text.
#[derive(Debug)]
pub struct NerSpan {
    pub label: String,
    pub confidence: Confidence,
    pub offset: std::ops::Range<usize>,
}

/// The abstract value of a [`NerSpan`].
pub struct NerSpanView {
    pub label: Seq<char>,
    pub confidence: Confidence,
    pub start: usize,
    pub end: usize,
}

impl View for NerSpan {
    type V = NerSpanView;

    open spec fn view(&self) -> NerSpanView {
        NerSpanView {
            label: self.label@,
            confidence: self.confidence,
            start: self.offset.start,
            end: self.offset.end,
        }
    }
}

impl NerSpan {
    /// A span labelled `label` over the bytes `offset`.
    pub fn new(label: String, confidence: Confidence, offset: std::ops::Range<usize>) -> (span:
        NerSpan)
        ensures
            span.label == label,
            span.confidence == confidence,
            span.offset == offset,
    {
        NerSpan { label, confidence, offset }
    }
}

/// The spans found in one request.
#[derive(Debug)]
pub struct NerResponse {
    pub spans: Vec<NerSpan>,
}

impl NerResponse {
    /// A response carrying `spans`.
    pub fn new(spans: Vec<NerSpan>) -> (response: NerResponse)
        ensures
            response.spans == spans,
    {
        NerResponse { spans }
    }

    /// The abstract spans, in order.
    pub open spec fn span_views(&self) -> Seq<NerSpanView> {
        self.spans@.map_values(|s: NerSpan| s@)
    }
}

} // verus!
