//! Deepgram's batch answer, read into the transcript vocabulary.
//!
//! Deepgram reports float seconds; the caller rounds them to whole
//! milliseconds and records whether each span was inverted before rounding
//! (see [`Timing`]). Speaker indices become `SPEAKER_00`-style labels, the
//! vocabulary every diarizing backend emits.

use vstd::prelude::*;

use crate::primitive::{Confidence, TimeSpan};
use crate::stt::{
    count_where, filter_map, lemma_count_where_agree, lemma_count_where_prefix, lemma_filter_map_index,
    lemma_filter_map_len, lemma_filter_map_source, lemma_filter_map_step, span, span_of, SttResponse, Timing, TranscriptSegment,
    TranscriptSegmentView, TranscriptWord, TranscriptWordView,
};
use crate::text::{
    digits_value, format_speaker_label, lemma_speaker_label_names_index, speaker_label_spec, speaker_prefix, trim,
    trim_spec,
};

use super::error::DeepgramBackendError;

verus! {

/// One word of an utterance, as Deepgram reports it.
#[derive(Clone, Debug)]
pub struct Word {
    pub word: String,
    pub timing: Timing,
    /// The word's confidence, clamped into `[0, 1]`.
    pub confidence: Confidence,
}

/// The abstract value of a [`Word`].
pub struct WordView {
    pub word: Seq<char>,
    pub timing: Timing,
    pub confidence: Confidence,
}

impl View for Word {
    type V = WordView;

    open spec fn view(&self) -> WordView {
        WordView { word: self.word@, timing: self.timing, confidence: self.confidence }
    }
}

/// One utterance, as Deepgram reports it.
#[derive(Clone, Debug)]
pub struct Utterance {
    pub timing: Timing,
    /// The utterance's confidence, clamped into `[0, 1]`.
    pub confidence: Confidence,
    pub transcript: String,
    pub words: Vec<Word>,
    pub speaker: Option<usize>,
}

/// The abstract value of an [`Utterance`].
pub struct UtteranceView {
    pub timing: Timing,
    pub confidence: Confidence,
    pub transcript: Seq<char>,
    pub words: Seq<WordView>,
    pub speaker: Option<usize>,
}

impl View for Utterance {
    type V = UtteranceView;

    open spec fn view(&self) -> UtteranceView {
        UtteranceView {
            timing: self.timing,
            confidence: self.confidence,
            transcript: self.transcript@,
            words: self.words@.map_values(|w: Word| w@),
            speaker: self.speaker,
        }
    }
}

/// A batch answer: the utterances, when Deepgram sent them.
#[derive(Clone, Debug)]
pub struct Response {
    pub utterances: Option<Vec<Utterance>>,
}

/// The word `w` becomes, or `None` when its trimmed text is empty or its
/// span inverted.
pub open spec fn word_spec(w: WordView) -> Option<TranscriptWordView> {
    let text = trim_spec(w.word);
    if text.len() == 0 {
        None
    } else {
        match span_of(w.timing) {
            Some(s) => Some(TranscriptWordView { span: s, text, confidence: Some(w.confidence) }),
            None => None,
        }
    }
}

/// The segment `u` becomes, or `None` when its span is inverted.
pub open spec fn segment_spec(u: UtteranceView) -> Option<TranscriptSegmentView> {
    match span_of(u.timing) {
        Some(s) => Some(
            TranscriptSegmentView {
                span: s,
                text: trim_spec(u.transcript),
                speaker_id: match u.speaker {
                    Some(i) => Some(speaker_label_spec(i as nat)),
                    None => None,
                },
                language: None,
                confidence: Some(u.confidence),
                words: filter_map(u.words, |w: WordView| word_spec(w)),
            },
        ),
        None => None,
    }
}

/// The segments a list of utterances becomes, in order.
pub open spec fn segments_spec(us: Seq<UtteranceView>) -> Seq<TranscriptSegmentView> {
    filter_map(us, |u: UtteranceView| segment_spec(u))
}

/// The message of an answer without utterances.
pub const NO_UTTERANCES: &'static str = "response carried no utterances; the request asks for them";

/// Deepgram's integer speaker index as the `SPEAKER_NN` label.
pub fn speaker_label(index: usize) -> (label: String)
    ensures
        label@ == speaker_label_spec(index as nat),
        label@.take(8) == speaker_prefix(),
        digits_value(label@.skip(8)) == index,
{
    proof {
        lemma_speaker_label_names_index(index as nat);
    }
    format_speaker_label(index as u64)
}

/// One word, or `None` when its span or text is unusable.
///
/// Deepgram's per-word speaker is not carried: speakers are attributed per
/// segment.
pub fn word(dto: &Word) -> (w: Option<TranscriptWord>)
    ensures
        match (w, word_spec(dto@)) {
            (Some(w), Some(v)) => w@ == v,
            (None, None) => true,
            _ => false,
        },
{
    let text = trim(dto.word.as_str());
    if text.is_empty() {
        return None;
    }
    match span(&dto.timing) {
        Some(s) => Some(TranscriptWord::new(s, text.to_owned()).with_confidence(dto.confidence)),
        None => None,
    }
}

/// One segment, or `None` when its span is inverted; an inverted span is
/// dropped rather than clamped.
pub fn segment(utterance: &Utterance) -> (seg: Option<TranscriptSegment>)
    ensures
        match (seg, segment_spec(utterance@)) {
            (Some(s), Some(v)) => s@ == v,
            (None, None) => true,
            _ => false,
        },
{
    let s = match span(&utterance.timing) {
        Some(s) => s,
        None => return None,
    };
    let mut segment = TranscriptSegment::new(s, trim(utterance.transcript.as_str()).to_owned());
    match utterance.speaker {
        Some(index) => {
            segment = segment.with_speaker_id(speaker_label(index));
        },
        None => {},
    }
    segment = segment.with_confidence(utterance.confidence);

    let ghost ws = utterance.words@.map_values(|w: Word| w@);
    let ghost f = |w: WordView| word_spec(w);
    let mut words: Vec<TranscriptWord> = Vec::new();
    let n = utterance.words.len();
    let mut k: usize = 0;
    while k < n
        invariant
            n == utterance.words@.len(),
            ws == utterance.words@.map_values(|w: Word| w@),
            f == (|w: WordView| word_spec(w)),
            0 <= k <= n,
            words@.map_values(|w: TranscriptWord| w@) == filter_map(ws.take(k as int), f),
        decreases n - k,
    {
        let kept = word(&utterance.words[k]);
        proof {
            lemma_filter_map_step(ws, f, k as int);
            assert(ws[k as int] == utterance.words@[k as int]@);
            assert(f(ws[k as int]) == word_spec(utterance.words@[k as int]@));
        }
        match kept {
            Some(w) => {
                let ghost prev = words@;
                let ghost wv = w@;
                words.push(w);
                assert(words@.map_values(|w: TranscriptWord| w@) =~= prev.map_values(
                    |w: TranscriptWord| w@,
                ).push(wv));
            },
            None => {},
        }
        k = k + 1;
    }
    proof {
        assert(ws.take(n as int) =~= ws);
    }
    if words.len() > 0 {
        segment = segment.with_words(words);
    } else {
        assert(words@.map_values(|w: TranscriptWord| w@) =~= Seq::<TranscriptWordView>::empty());
    }
    Some(segment)
}

/// The transcript from a batch answer.
///
/// Requires utterances: the request always asks for them, so their absence
/// means the provider did not answer the request that was made.
pub fn decode(response: Response) -> (decoded: Result<SttResponse, DeepgramBackendError>)
    ensures
        match (response.utterances, decoded) {
            (Some(us), Ok(r)) => r.segment_views() == segments_spec(
                us@.map_values(|u: Utterance| u@),
            ),
            (None, Err(DeepgramBackendError::Protocol(m))) => m@ == NO_UTTERANCES@,
            _ => false,
        },
{
    let utterances = match response.utterances {
        Some(us) => us,
        None => return Err(DeepgramBackendError::Protocol(NO_UTTERANCES.to_owned())),
    };
    let ghost us = utterances@.map_values(|u: Utterance| u@);
    let ghost f = |u: UtteranceView| segment_spec(u);
    let mut segments: Vec<TranscriptSegment> = Vec::new();
    let n = utterances.len();
    let mut k: usize = 0;
    while k < n
        invariant
            n == utterances@.len(),
            us == utterances@.map_values(|u: Utterance| u@),
            f == (|u: UtteranceView| segment_spec(u)),
            0 <= k <= n,
            segments@.map_values(|s: TranscriptSegment| s@) == filter_map(us.take(k as int), f),
        decreases n - k,
    {
        let kept = segment(&utterances[k]);
        proof {
            lemma_filter_map_step(us, f, k as int);
            assert(us[k as int] == utterances@[k as int]@);
            assert(f(us[k as int]) == segment_spec(utterances@[k as int]@));
        }
        match kept {
            Some(s) => {
                let ghost prev = segments@;
                let ghost sv = s@;
                segments.push(s);
                assert(segments@.map_values(|s: TranscriptSegment| s@) =~= prev.map_values(
                    |s: TranscriptSegment| s@,
                ).push(sv));
            },
            None => {},
        }
        k = k + 1;
    }
    proof {
        assert(us.take(n as int) =~= us);
    }
    Ok(SttResponse::new(segments))
}


/// Every segment of a decoded answer comes from an utterance whose span was
/// not inverted: it covers exactly that utterance's milliseconds, reads its
/// trimmed text, and every word it carries has text.
pub proof fn lemma_segments_come_from_ordered_utterances(us: Seq<UtteranceView>, n: int)
    requires
        0 <= n < segments_spec(us).len(),
    ensures
        exists|k: int|
            0 <= k < us.len() && {
                let u = #[trigger] us[k];
                let s = segments_spec(us)[n];
                &&& u.timing.ordered
                &&& s.span == TimeSpan { start_ms: u.timing.start_ms, end_ms: u.timing.end_ms }
                &&& s.text == trim_spec(u.transcript)
                &&& forall|j: int| 0 <= j < s.words.len() ==> (#[trigger] s.words[j]).text.len() > 0
            },
{
    let f = |u: UtteranceView| segment_spec(u);
    lemma_filter_map_source(us, f, n);
    let k = choose|k: int| 0 <= k < us.len() && f(#[trigger] us[k]) == Some(filter_map(us, f)[n]);
    let u = us[k];
    let s = segments_spec(us)[n];
    let g = |w: WordView| word_spec(w);
    assert forall|j: int| 0 <= j < s.words.len() implies (#[trigger] s.words[j]).text.len() > 0 by {
        lemma_filter_map_source(u.words, g, j);
    }
}

/// Whether a word is usable: its span is not inverted and its trimmed text
/// is not empty.
pub open spec fn usable_word(w: WordView) -> bool {
    w.timing.ordered && trim_spec(w.word).len() > 0
}

/// The transcript word a usable input word becomes.
pub open spec fn expected_word(w: WordView) -> TranscriptWordView {
    TranscriptWordView {
        span: TimeSpan { start_ms: w.timing.start_ms, end_ms: w.timing.end_ms },
        text: trim_spec(w.word),
        confidence: Some(w.confidence),
    }
}

/// A word is kept exactly when it is usable, and then it keeps its own
/// milliseconds, its trimmed text and its confidence.
pub proof fn lemma_word_law(w: WordView)
    ensures
        word_spec(w) is Some <==> usable_word(w),
        usable_word(w) ==> word_spec(w) == Some(expected_word(w)),
{
}

/// What a segment is made of: an utterance becomes a segment exactly when
/// its span is not inverted; the segment keeps the utterance's milliseconds,
/// trimmed text and confidence, labels its speaker with that speaker's own
/// index, and carries every usable word of the utterance, in order, each
/// with its own milliseconds, and nothing else.
pub proof fn lemma_segment_law(u: UtteranceView)
    ensures
        segment_spec(u) is Some <==> u.timing.ordered,
        u.timing.ordered ==> {
            let s = segment_spec(u)->0;
            &&& s.span == TimeSpan { start_ms: u.timing.start_ms, end_ms: u.timing.end_ms }
            &&& s.text == trim_spec(u.transcript)
            &&& s.confidence == Some(u.confidence)
            &&& s.language is None
            &&& match u.speaker {
                Some(i) => s.speaker_id matches Some(l) && l == speaker_label_spec(i as nat)
                    && l.take(8) == speaker_prefix() && digits_value(l.skip(8)) == i,
                None => s.speaker_id is None,
            }
            &&& s.words.len() == count_where(u.words, |w: WordView| usable_word(w))
            &&& forall|k: int|
                0 <= k < u.words.len() && usable_word(#[trigger] u.words[k]) ==> {
                    let n = count_where(u.words.take(k), |w: WordView| usable_word(w));
                    &&& n < s.words.len()
                    &&& s.words[n as int] == expected_word(u.words[k])
                }
        },
{
    if u.timing.ordered {
        let s = segment_spec(u)->0;
        let f = |w: WordView| word_spec(w);
        let p = |w: WordView| f(w) is Some;
        let q = |w: WordView| usable_word(w);
        assert forall|w: WordView| #[trigger] p(w) == q(w) by {
            lemma_word_law(w);
        }
        lemma_filter_map_len(u.words, f);
        lemma_count_where_agree(u.words, p, q);
        match u.speaker {
            Some(i) => {
                lemma_speaker_label_names_index(i as nat);
            },
            None => {},
        }
        assert forall|k: int|
            0 <= k < u.words.len() && usable_word(#[trigger] u.words[k]) implies {
                let n = count_where(u.words.take(k), |w: WordView| usable_word(w));
                &&& n < s.words.len()
                &&& s.words[n as int] == expected_word(u.words[k])
            } by {
            lemma_word_law(u.words[k]);
            lemma_filter_map_index(u.words, f, k);
            lemma_count_where_agree(u.words.take(k), p, q);
        }
    }
}

/// What a decoded answer is made of: exactly one segment for each utterance
/// whose span is not inverted, in the utterances' order.
pub proof fn lemma_segments_law(us: Seq<UtteranceView>)
    ensures
        segments_spec(us).len() == count_where(us, |u: UtteranceView| u.timing.ordered),
        forall|k: int|
            0 <= k < us.len() && (#[trigger] us[k]).timing.ordered ==> {
                let n = count_where(us.take(k), |u: UtteranceView| u.timing.ordered);
                &&& n < segments_spec(us).len()
                &&& segments_spec(us)[n as int] == segment_spec(us[k])->0
            },
{
    let f = |u: UtteranceView| segment_spec(u);
    let p = |u: UtteranceView| f(u) is Some;
    let q = |u: UtteranceView| u.timing.ordered;
    assert forall|u: UtteranceView| #[trigger] p(u) == q(u) by {
        lemma_segment_law(u);
    }
    lemma_filter_map_len(us, f);
    lemma_count_where_agree(us, p, q);
    assert forall|k: int|
        0 <= k < us.len() && (#[trigger] us[k]).timing.ordered implies {
            let n = count_where(us.take(k), |u: UtteranceView| u.timing.ordered);
            &&& n < segments_spec(us).len()
            &&& segments_spec(us)[n as int] == segment_spec(us[k])->0
        } by {
        lemma_segment_law(us[k]);
        lemma_filter_map_index(us, f, k);
        lemma_count_where_agree(us.take(k), p, q);
    }
}

} // verus!
