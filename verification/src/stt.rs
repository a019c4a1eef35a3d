//! The transcript vocabulary a speech-to-text backend answers with, and the
//! timing form in which provider answers arrive.

use vstd::prelude::*;

use crate::primitive::{Confidence, TimeSpan};

verus! {

/// A provider's start and end as the caller converted them: both rounded to
/// whole milliseconds, and whether the span counts as not inverted, decided
/// on the float seconds the provider reported, before any rounding.
///
/// The two providers decide that differently, and the caller follows each:
/// for Deepgram `ordered` is `end >= start`; for Gladia it is
/// `!(end < start)`, which also keeps a span with a NaN bound. The two agree
/// on every pair of numbers.
#[derive(Clone, Copy, Debug, PartialEq, Eq, Structural)]
pub struct Timing {
    pub start_ms: u64,
    pub end_ms: u64,
    pub ordered: bool,
}

/// The span a timing stands for, or `None` when it is inverted.
pub open spec fn span_of(t: Timing) -> Option<TimeSpan> {
    if t.ordered {
        Some(TimeSpan { start_ms: t.start_ms, end_ms: t.end_ms })
    } else {
        None
    }
}

/// The span `t` stands for, or `None` when it is inverted: an inverted span
/// means the provider disagreed with itself, and inventing one would hide
/// that.
pub fn span(t: &Timing) -> (span: Option<TimeSpan>)
    ensures
        span == span_of(*t),
{
    if t.ordered {
        Some(TimeSpan::from_millis(t.start_ms, t.end_ms))
    } else {
        None
    }
}

/// The elements `f` keeps of `s`, in order.
pub open spec fn filter_map<A, B>(s: Seq<A>, f: spec_fn(A) -> Option<B>) -> Seq<B>
    decreases s.len(),
{
    if s.len() == 0 {
        Seq::empty()
    } else {
        let rest = filter_map(s.drop_last(), f);
        match f(s.last()) {
            Some(b) => rest.push(b),
            None => rest,
        }
    }
}

/// Extending the input by one element extends the result by what `f` keeps
/// of it.
pub proof fn lemma_filter_map_step<A, B>(s: Seq<A>, f: spec_fn(A) -> Option<B>, k: int)
    requires
        0 <= k < s.len(),
    ensures
        filter_map(s.take(k + 1), f) == match f(s[k]) {
            Some(b) => filter_map(s.take(k), f).push(b),
            None => filter_map(s.take(k), f),
        },
{
    assert(s.take(k + 1).drop_last() =~= s.take(k));
    assert(s.take(k + 1).last() == s[k]);
}

/// Every element of the result is what `f` keeps of some input element.
pub proof fn lemma_filter_map_source<A, B>(s: Seq<A>, f: spec_fn(A) -> Option<B>, n: int)
    requires
        0 <= n < filter_map(s, f).len(),
    ensures
        exists|k: int| 0 <= k < s.len() && f(#[trigger] s[k]) == Some(filter_map(s, f)[n]),
    decreases s.len(),
{
    let rest = filter_map(s.drop_last(), f);
    if n < rest.len() {
        lemma_filter_map_source(s.drop_last(), f, n);
        let k = choose|k: int|
            0 <= k < s.drop_last().len() && f(#[trigger] s.drop_last()[k]) == Some(rest[n]);
        assert(s.drop_last()[k] == s[k]);
    } else {
        assert(f(s[s.len() - 1]) == Some(filter_map(s, f)[n]));
    }
}

/// How many elements of `s` satisfy `p`.
pub open spec fn count_where<A>(s: Seq<A>, p: spec_fn(A) -> bool) -> nat
    decreases s.len(),
{
    if s.len() == 0 {
        0
    } else {
        count_where(s.drop_last(), p) + if p(s.last()) {
            1nat
        } else {
            0nat
        }
    }
}

/// Counting with two predicates that agree everywhere gives the same count.
pub proof fn lemma_count_where_agree<A>(s: Seq<A>, p: spec_fn(A) -> bool, q: spec_fn(A) -> bool)
    requires
        forall|a: A| #[trigger] p(a) == q(a),
    ensures
        count_where(s, p) == count_where(s, q),
    decreases s.len(),
{
    if s.len() > 0 {
        lemma_count_where_agree(s.drop_last(), p, q);
    }
}

/// A prefix holds no more matches than the whole, and one fewer than the
/// prefix that also takes a matching next element.
pub proof fn lemma_count_where_prefix<A>(s: Seq<A>, p: spec_fn(A) -> bool, k: int)
    requires
        0 <= k < s.len(),
        p(s[k]),
    ensures
        count_where(s.take(k), p) < count_where(s, p),
    decreases s.len(),
{
    if k == s.len() - 1 {
        assert(s.take(k) =~= s.drop_last());
    } else {
        assert(s.drop_last().take(k) =~= s.take(k));
        assert(s.drop_last()[k] == s[k]);
        lemma_count_where_prefix(s.drop_last(), p, k);
    }
}

/// `filter_map` keeps exactly as many elements as `f` keeps.
pub proof fn lemma_filter_map_len<A, B>(s: Seq<A>, f: spec_fn(A) -> Option<B>)
    ensures
        filter_map(s, f).len() == count_where(s, |a: A| f(a) is Some),
    decreases s.len(),
{
    if s.len() > 0 {
        lemma_filter_map_len(s.drop_last(), f);
    }
}

/// What `f` keeps of element `k` stands in the result right after what it
/// keeps of the elements before `k`: nothing kept is lost, and the order is
/// that of the input.
pub proof fn lemma_filter_map_index<A, B>(s: Seq<A>, f: spec_fn(A) -> Option<B>, k: int)
    requires
        0 <= k < s.len(),
        f(s[k]) is Some,
    ensures
        count_where(s.take(k), |a: A| f(a) is Some) < filter_map(s, f).len(),
        filter_map(s, f)[count_where(s.take(k), |a: A| f(a) is Some) as int] == f(s[k])->0,
    decreases s.len(),
{
    let p = |a: A| f(a) is Some;
    lemma_filter_map_len(s.drop_last(), f);
    if k == s.len() - 1 {
        assert(s.take(k) =~= s.drop_last());
    } else {
        assert(s.drop_last().take(k) =~= s.take(k));
        assert(s.drop_last()[k] == s[k]);
        lemma_filter_map_index(s.drop_last(), f, k);
    }
}

/// One transcribed word.
#[derive(Clone, Debug)]
pub struct TranscriptWord {
    pub span: TimeSpan,
    pub text: String,
    pub confidence: Option<Confidence>,
}

/// The abstract value of a [`TranscriptWord`].
pub struct TranscriptWordView {
    pub span: TimeSpan,
    pub text: Seq<char>,
    pub confidence: Option<Confidence>,
}

impl View for TranscriptWord {
    type V = TranscriptWordView;

    open spec fn view(&self) -> TranscriptWordView {
        TranscriptWordView { span: self.span, text: self.text@, confidence: self.confidence }
    }
}

impl TranscriptWord {
    /// A word over `span` reading `text`, with no confidence.
    pub fn new(span: TimeSpan, text: String) -> (word: TranscriptWord)
        ensures
            word@ == (TranscriptWordView { span, text: text@, confidence: None }),
    {
        TranscriptWord { span, text, confidence: None }
    }

    /// The same word with `confidence`.
    pub fn with_confidence(self, confidence: Confidence) -> (word: TranscriptWord)
        ensures
            word@ == (TranscriptWordView { confidence: Some(confidence), ..self@ }),
    {
        TranscriptWord { confidence: Some(confidence), ..self }
    }
}

/// One transcribed segment: a stretch of speech with its text and, when
/// known, its speaker, language, confidence and words.
#[derive(Clone, Debug)]
pub struct TranscriptSegment {
    pub span: TimeSpan,
    pub text: String,
    pub speaker_id: Option<String>,
    pub language: Option<String>,
    pub confidence: Option<Confidence>,
    pub words: Vec<TranscriptWord>,
}

/// The abstract value of a [`TranscriptSegment`].
pub struct TranscriptSegmentView {
    pub span: TimeSpan,
    pub text: Seq<char>,
    pub speaker_id: Option<Seq<char>>,
    pub language: Option<Seq<char>>,
    pub confidence: Option<Confidence>,
    pub words: Seq<TranscriptWordView>,
}

/// The abstract value of an optional string.
pub open spec fn opt_view(s: Option<String>) -> Option<Seq<char>> {
    match s {
        Some(s) => Some(s@),
        None => None,
    }
}

impl View for TranscriptSegment {
    type V = TranscriptSegmentView;

    open spec fn view(&self) -> TranscriptSegmentView {
        TranscriptSegmentView {
            span: self.span,
            text: self.text@,
            speaker_id: opt_view(self.speaker_id),
            language: opt_view(self.language),
            confidence: self.confidence,
            words: self.words@.map_values(|w: TranscriptWord| w@),
        }
    }
}

impl TranscriptSegment {
    /// A segment over `span` reading `text`, with nothing else known.
    pub fn new(span: TimeSpan, text: String) -> (segment: TranscriptSegment)
        ensures
            segment@ == (TranscriptSegmentView {
                span,
                text: text@,
                speaker_id: None,
                language: None,
                confidence: None,
                words: Seq::empty(),
            }),
    {
        let segment = TranscriptSegment {
            span,
            text,
            speaker_id: None,
            language: None,
            confidence: None,
            words: Vec::new(),
        };
        assert(segment@.words =~= Seq::<TranscriptWordView>::empty());
        segment
    }

    /// The same segment attributed to `speaker_id`.
    pub fn with_speaker_id(self, speaker_id: String) -> (segment: TranscriptSegment)
        ensures
            segment@ == (TranscriptSegmentView { speaker_id: Some(speaker_id@), ..self@ }),
    {
        TranscriptSegment { speaker_id: Some(speaker_id), ..self }
    }

    /// The same segment in language `language`.
    pub fn with_language(self, language: String) -> (segment: TranscriptSegment)
        ensures
            segment@ == (TranscriptSegmentView { language: Some(language@), ..self@ }),
    {
        TranscriptSegment { language: Some(language), ..self }
    }

    /// The same segment with `confidence`.
    pub fn with_confidence(self, confidence: Confidence) -> (segment: TranscriptSegment)
        ensures
            segment@ == (TranscriptSegmentView { confidence: Some(confidence), ..self@ }),
    {
        TranscriptSegment { confidence: Some(confidence), ..self }
    }

    /// The same segment with `words`.
    pub fn with_words(self, words: Vec<TranscriptWord>) -> (segment: TranscriptSegment)
        ensures
            segment@ == (TranscriptSegmentView {
                words: words@.map_values(|w: TranscriptWord| w@),
                ..self@
            }),
    {
        TranscriptSegment { words, ..self }
    }
}

/// The segments of one transcription, in order.
#[derive(Clone, Debug)]
pub struct SttResponse {
    pub segments: Vec<TranscriptSegment>,
}

impl SttResponse {
    /// A response carrying `segments`.
    pub fn new(segments: Vec<TranscriptSegment>) -> (response: SttResponse)
        ensures
            response.segments == segments,
    {
        SttResponse { segments }
    }

    /// The abstract segments, in order.
    pub open spec fn segment_views(&self) -> Seq<TranscriptSegmentView> {
        self.segments@.map_values(|s: TranscriptSegment| s@)
    }
}

/// One transcription request: the audio bytes and, when the caller asserts
/// one, the language as a BCP-47 tag.
pub struct SttRequest<'a> {
    pub audio: &'a [u8],
    pub language: Option<&'a str>,
}

} // verus!
