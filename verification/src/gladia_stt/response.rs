//! Gladia's transcription result, read into the transcript vocabulary.
//!
//! Gladia reports float seconds; the caller rounds them to whole
//! milliseconds and records whether each span was inverted before rounding
//! (see [`Timing`]). A span is inverted only when `end < start`, so for a
//! Gladia answer the caller sets `ordered` to `!(end < start)`: a span with a
//! NaN bound is kept, as Gladia's own check keeps it. Gladia's integer speaker index becomes a `SPEAKER_00`
//! style label.

use vstd::prelude::*;

use crate::primitive::{Confidence, TimeSpan};
use crate::stt::{
    count_where, filter_map, lemma_count_where_agree, lemma_count_where_prefix, lemma_filter_map_index,
    lemma_filter_map_len, lemma_filter_map_source, lemma_filter_map_step, opt_view, span, span_of, SttResponse, Timing,
    TranscriptSegment, TranscriptSegmentView, TranscriptWord, TranscriptWordView,
};
use crate::text::{
    decimal, digits_value, format_speaker_label, lemma_speaker_label_names_index, push_char, push_decimal,
    speaker_label_spec, speaker_prefix, trim, trim_spec,
};

verus! {

/// The state a transcription job finished in.
#[derive(Clone, Copy, Debug, PartialEq, Eq, Structural)]
pub enum PreRecordedResponseStatus {
    Queued,
    Processing,
    Done,
    Error,
}

/// One word, as Gladia reports it.
#[derive(Clone, Debug)]
pub struct WordDto {
    pub word: String,
    pub timing: Timing,
    /// The word's confidence, clamped into `[0, 1]`.
    pub confidence: Confidence,
}

/// The abstract value of a [`WordDto`].
pub struct WordDtoView {
    pub word: Seq<char>,
    pub timing: Timing,
    pub confidence: Confidence,
}

impl View for WordDto {
    type V = WordDtoView;

    open spec fn view(&self) -> WordDtoView {
        WordDtoView { word: self.word@, timing: self.timing, confidence: self.confidence }
    }
}

/// One utterance, as Gladia reports it.
#[derive(Clone, Debug)]
pub struct UtteranceDto {
    pub timing: Timing,
    /// The utterance's confidence, clamped into `[0, 1]`.
    pub confidence: Confidence,
    pub text: String,
    pub speaker: Option<u64>,
    /// The utterance's language as a BCP-47 tag, when Gladia's language code
    /// is one.
    pub language: Option<String>,
    pub words: Vec<WordDto>,
}

/// The abstract value of an [`UtteranceDto`].
pub struct UtteranceDtoView {
    pub timing: Timing,
    pub confidence: Confidence,
    pub text: Seq<char>,
    pub speaker: Option<u64>,
    pub language: Option<Seq<char>>,
    pub words: Seq<WordDtoView>,
}

impl View for UtteranceDto {
    type V = UtteranceDtoView;

    open spec fn view(&self) -> UtteranceDtoView {
        UtteranceDtoView {
            timing: self.timing,
            confidence: self.confidence,
            text: self.text@,
            speaker: self.speaker,
            language: opt_view(self.language),
            words: self.words@.map_values(|w: WordDto| w@),
        }
    }
}

/// The transcription of a finished job.
#[derive(Clone, Debug)]
pub struct Transcription {
    pub utterances: Vec<UtteranceDto>,
}

/// The result body of a finished job.
#[derive(Clone, Debug)]
pub struct TranscriptionResult {
    pub transcription: Option<Transcription>,
}

/// A job as Gladia reports it.
#[derive(Clone, Debug)]
pub struct PreRecordedResponse {
    pub status: PreRecordedResponseStatus,
    pub error_code: Option<i64>,
    pub result: Option<TranscriptionResult>,
}

/// Errors of reading a Gladia job.
#[derive(Clone, Debug)]
pub enum GladiaError {
    /// The job did not produce a transcript.
    Failed(String),
}

/// The word `w` becomes, or `None` when its span is inverted or its trimmed
/// text empty.
pub open spec fn word_spec(w: WordDtoView) -> Option<TranscriptWordView> {
    let text = trim_spec(w.word);
    if !w.timing.ordered || text.len() == 0 {
        None
    } else {
        Some(
            TranscriptWordView {
                span: span_of(w.timing)->0,
                text,
                confidence: Some(w.confidence),
            },
        )
    }
}

/// The segment `u` becomes, or `None` when its span is inverted.
pub open spec fn segment_spec(u: UtteranceDtoView) -> Option<TranscriptSegmentView> {
    if !u.timing.ordered {
        None
    } else {
        Some(
            TranscriptSegmentView {
                span: span_of(u.timing)->0,
                text: trim_spec(u.text),
                speaker_id: match u.speaker {
                    Some(i) => Some(speaker_label_spec(i as nat)),
                    None => None,
                },
                language: u.language,
                confidence: Some(u.confidence),
                words: filter_map(u.words, |w: WordDtoView| word_spec(w)),
            },
        )
    }
}

/// The segments a list of utterances becomes, in order.
pub open spec fn segments_spec(us: Seq<UtteranceDtoView>) -> Seq<TranscriptSegmentView> {
    filter_map(us, |u: UtteranceDtoView| segment_spec(u))
}

/// How a status prints.
pub open spec fn status_name(status: PreRecordedResponseStatus) -> Seq<char> {
    match status {
        PreRecordedResponseStatus::Queued => "Queued"@,
        PreRecordedResponseStatus::Processing => "Processing"@,
        PreRecordedResponseStatus::Done => "Done"@,
        PreRecordedResponseStatus::Error => "Error"@,
    }
}

/// How an integer prints: a minus sign for negatives, then the decimal
/// digits of its magnitude.
pub open spec fn signed_decimal(n: int) -> Seq<char> {
    if n < 0 {
        seq!['-'] + decimal((-n) as nat)
    } else {
        decimal(n as nat)
    }
}

/// How an optional error code prints.
pub open spec fn error_code_text(code: Option<i64>) -> Seq<char> {
    match code {
        Some(n) => "Some("@ + signed_decimal(n as int) + ")"@,
        None => "None"@,
    }
}

/// The message of a job that did not finish as done.
pub open spec fn not_done_message(status: PreRecordedResponseStatus, code: Option<i64>) -> Seq<
    char,
> {
    "job finished as "@ + status_name(status) + " (error_code "@ + error_code_text(code) + ")"@
}

/// The message of a done job without a transcription.
pub const NO_TRANSCRIPTION: &'static str = "done job carried no transcription";

/// Gladia's integer speaker index as the `SPEAKER_NN` label.
pub fn speaker_label(index: u64) -> (label: String)
    ensures
        label@ == speaker_label_spec(index as nat),
        label@.take(8) == speaker_prefix(),
        digits_value(label@.skip(8)) == index,
{
    proof {
        lemma_speaker_label_names_index(index as nat);
    }
    format_speaker_label(index)
}

/// Appends how `status` prints to `s`.
fn push_status(s: &mut String, status: PreRecordedResponseStatus)
    ensures
        final(s)@ == old(s)@ + status_name(status),
{
    match status {
        PreRecordedResponseStatus::Queued => s.append("Queued"),
        PreRecordedResponseStatus::Processing => s.append("Processing"),
        PreRecordedResponseStatus::Done => s.append("Done"),
        PreRecordedResponseStatus::Error => s.append("Error"),
    }
}

/// Appends how `n` prints to `s`.
fn push_signed(s: &mut String, n: i64)
    ensures
        final(s)@ == old(s)@ + signed_decimal(n as int),
{
    if n < 0 {
        push_char(s, '-');
        let magnitude: u64 = ((-(n + 1)) as u64) + 1;
        push_decimal(s, magnitude);
        assert(s@ =~= old(s)@ + signed_decimal(n as int));
    } else {
        push_decimal(s, n as u64);
    }
}

/// The message of a job that did not finish as done.
pub fn not_done(status: PreRecordedResponseStatus, code: Option<i64>) -> (msg: String)
    ensures
        msg@ == not_done_message(status, code),
{
    let mut msg = "job finished as ".to_owned();
    push_status(&mut msg, status);
    msg.append(" (error_code ");
    match code {
        Some(n) => {
            msg.append("Some(");
            push_signed(&mut msg, n);
            msg.append(")");
        },
        None => msg.append("None"),
    }
    msg.append(")");
    assert(msg@ =~= not_done_message(status, code));
    msg
}

/// One word, or `None` when its span or text is unusable.
pub fn word(dto: &WordDto) -> (w: Option<TranscriptWord>)
    ensures
        match (w, word_spec(dto@)) {
            (Some(w), Some(v)) => w@ == v,
            (None, None) => true,
            _ => false,
        },
{
    let text = trim(dto.word.as_str());
    if !dto.timing.ordered || text.is_empty() {
        return None;
    }
    let s = span(&dto.timing);
    Some(TranscriptWord::new(s.unwrap(), text.to_owned()).with_confidence(dto.confidence))
}

/// One segment, or `None` when its span is inverted; an inverted span is
/// dropped rather than clamped.
pub fn segment(utterance: &UtteranceDto) -> (seg: Option<TranscriptSegment>)
    ensures
        match (seg, segment_spec(utterance@)) {
            (Some(s), Some(v)) => s@ == v,
            (None, None) => true,
            _ => false,
        },
{
    if !utterance.timing.ordered {
        return None;
    }
    let s = span(&utterance.timing).unwrap();
    let mut segment = TranscriptSegment::new(s, trim(utterance.text.as_str()).to_owned());
    match utterance.speaker {
        Some(index) => {
            segment = segment.with_speaker_id(speaker_label(index));
        },
        None => {},
    }
    match &utterance.language {
        Some(tag) => {
            segment = segment.with_language(tag.clone());
        },
        None => {},
    }
    segment = segment.with_confidence(utterance.confidence);

    let ghost ws = utterance.words@.map_values(|w: WordDto| w@);
    let ghost f = |w: WordDtoView| word_spec(w);
    let mut words: Vec<TranscriptWord> = Vec::new();
    let n = utterance.words.len();
    let mut k: usize = 0;
    while k < n
        invariant
            n == utterance.words@.len(),
            ws == utterance.words@.map_values(|w: WordDto| w@),
            f == (|w: WordDtoView| word_spec(w)),
            0 <= k <= n,
            words@.map_values(|w: TranscriptWord| w@) == filter_map(ws.take(k as int), f),
        decreases n - k,
    {
        let kept = word(&utterance.words[k]);
        proof {
            lemma_filter_map_step(ws, f, k as int);
            assert(ws[k as int] == utterance.words@[k as int]@);
            assert(f(ws[k as int]) == word_spec(utterance.words@[k as int]@));
        }
        match kept {
            Some(w) => {
                let ghost prev = words@;
                let ghost wv = w@;
                words.push(w);
                assert(words@.map_values(|w: TranscriptWord| w@) =~= prev.map_values(
                    |w: TranscriptWord| w@,
                ).push(wv));
            },
            None => {},
        }
        k = k + 1;
    }
    proof {
        assert(ws.take(n as int) =~= ws);
    }
    if words.len() > 0 {
        segment = segment.with_words(words);
    } else {
        assert(words@.map_values(|w: TranscriptWord| w@) =~= Seq::<TranscriptWordView>::empty());
    }
    Some(segment)
}

/// The utterances of a job, when it finished as done with a transcription.
pub open spec fn job_utterances(response: PreRecordedResponse) -> Option<Vec<UtteranceDto>> {
    match response.result {
        Some(r) => match r.transcription {
            Some(t) => Some(t.utterances),
            None => None,
        },
        None => None,
    }
}

/// The transcript for a finished job.
///
/// A job in a non-done state is an error rather than an empty transcript,
/// and so is a done job with no transcription: Gladia makes the result
/// present on success, so its absence is the provider contradicting itself.
pub fn decode(response: PreRecordedResponse) -> (decoded: Result<SttResponse, GladiaError>)
    ensures
        response.status != PreRecordedResponseStatus::Done ==> (decoded matches Err(
            GladiaError::Failed(m),
        ) && m@ == not_done_message(response.status, response.error_code)),
        response.status == PreRecordedResponseStatus::Done ==> match (
            job_utterances(response),
            decoded,
        ) {
            (Some(us), Ok(r)) => r.segment_views() == segments_spec(
                us@.map_values(|u: UtteranceDto| u@),
            ),
            (None, Err(GladiaError::Failed(m))) => m@ == NO_TRANSCRIPTION@,
            _ => false,
        },
{
    if response.status != PreRecordedResponseStatus::Done {
        return Err(GladiaError::Failed(not_done(response.status, response.error_code)));
    }
    let utterances = match response.result {
        Some(result) => match result.transcription {
            Some(transcription) => transcription.utterances,
            None => return Err(GladiaError::Failed(NO_TRANSCRIPTION.to_owned())),
        },
        None => return Err(GladiaError::Failed(NO_TRANSCRIPTION.to_owned())),
    };
    let ghost us = utterances@.map_values(|u: UtteranceDto| u@);
    let ghost f = |u: UtteranceDtoView| segment_spec(u);
    let mut segments: Vec<TranscriptSegment> = Vec::new();
    let n = utterances.len();
    let mut k: usize = 0;
    while k < n
        invariant
            n == utterances@.len(),
            us == utterances@.map_values(|u: UtteranceDto| u@),
            f == (|u: UtteranceDtoView| segment_spec(u)),
            0 <= k <= n,
            segments@.map_values(|s: TranscriptSegment| s@) == filter_map(us.take(k as int), f),
        decreases n - k,
    {
        let kept = segment(&utterances[k]);
        proof {
            lemma_filter_map_step(us, f, k as int);
            assert(us[k as int] == utterances@[k as int]@);
            assert(f(us[k as int]) == segment_spec(utterances@[k as int]@));
        }
        match kept {
            Some(s) => {
                let ghost prev = segments@;
                let ghost sv = s@;
                segments.push(s);
                assert(segments@.map_values(|s: TranscriptSegment| s@) =~= prev.map_values(
                    |s: TranscriptSegment| s@,
                ).push(sv));
            },
            None => {},
        }
        k = k + 1;
    }
    proof {
        assert(us.take(n as int) =~= us);
    }
    Ok(SttResponse::new(segments))
}


/// Every segment of a decoded answer comes from an utterance whose span was
/// not inverted: it covers exactly that utterance's milliseconds, reads its
/// trimmed text, and every word it carries has text.
pub proof fn lemma_segments_come_from_ordered_utterances(us: Seq<UtteranceDtoView>, n: int)
    requires
        0 <= n < segments_spec(us).len(),
    ensures
        exists|k: int|
            0 <= k < us.len() && {
                let u = #[trigger] us[k];
                let s = segments_spec(us)[n];
                &&& u.timing.ordered
                &&& s.span == TimeSpan { start_ms: u.timing.start_ms, end_ms: u.timing.end_ms }
                &&& s.text == trim_spec(u.text)
                &&& forall|j: int| 0 <= j < s.words.len() ==> (#[trigger] s.words[j]).text.len() > 0
            },
{
    let f = |u: UtteranceDtoView| segment_spec(u);
    lemma_filter_map_source(us, f, n);
    let k = choose|k: int| 0 <= k < us.len() && f(#[trigger] us[k]) == Some(filter_map(us, f)[n]);
    let u = us[k];
    let s = segments_spec(us)[n];
    let g = |w: WordDtoView| word_spec(w);
    assert forall|j: int| 0 <= j < s.words.len() implies (#[trigger] s.words[j]).text.len() > 0 by {
        lemma_filter_map_source(u.words, g, j);
    }
}

/// Whether a word is usable: its span is not inverted and its trimmed text
/// is not empty.
pub open spec fn usable_word(w: WordDtoView) -> bool {
    w.timing.ordered && trim_spec(w.word).len() > 0
}

/// The transcript word a usable input word becomes.
pub open spec fn expected_word(w: WordDtoView) -> TranscriptWordView {
    TranscriptWordView {
        span: TimeSpan { start_ms: w.timing.start_ms, end_ms: w.timing.end_ms },
        text: trim_spec(w.word),
        confidence: Some(w.confidence),
    }
}

/// A word is kept exactly when it is usable, and then it keeps its own
/// milliseconds, its trimmed text and its confidence.
pub proof fn lemma_word_law(w: WordDtoView)
    ensures
        word_spec(w) is Some <==> usable_word(w),
        usable_word(w) ==> word_spec(w) == Some(expected_word(w)),
{
}

/// What a segment is made of: an utterance becomes a segment exactly when
/// its span is not inverted; the segment keeps the utterance's milliseconds,
/// trimmed text and confidence, labels its speaker with that speaker's own
/// index, and carries every usable word of the utterance, in order, each
/// with its own milliseconds, and nothing else.
pub proof fn lemma_segment_law(u: UtteranceDtoView)
    ensures
        segment_spec(u) is Some <==> u.timing.ordered,
        u.timing.ordered ==> {
            let s = segment_spec(u)->0;
            &&& s.span == TimeSpan { start_ms: u.timing.start_ms, end_ms: u.timing.end_ms }
            &&& s.text == trim_spec(u.text)
            &&& s.confidence == Some(u.confidence)
            &&& s.language == u.language
            &&& match u.speaker {
                Some(i) => s.speaker_id matches Some(l) && l == speaker_label_spec(i as nat)
                    && l.take(8) == speaker_prefix() && digits_value(l.skip(8)) == i,
                None => s.speaker_id is None,
            }
            &&& s.words.len() == count_where(u.words, |w: WordDtoView| usable_word(w))
            &&& forall|k: int|
                0 <= k < u.words.len() && usable_word(#[trigger] u.words[k]) ==> {
                    let n = count_where(u.words.take(k), |w: WordDtoView| usable_word(w));
                    &&& n < s.words.len()
                    &&& s.words[n as int] == expected_word(u.words[k])
                }
        },
{
    if u.timing.ordered {
        let s = segment_spec(u)->0;
        let f = |w: WordDtoView| word_spec(w);
        let p = |w: WordDtoView| f(w) is Some;
        let q = |w: WordDtoView| usable_word(w);
        assert forall|w: WordDtoView| #[trigger] p(w) == q(w) by {
            lemma_word_law(w);
        }
        lemma_filter_map_len(u.words, f);
        lemma_count_where_agree(u.words, p, q);
        match u.speaker {
            Some(i) => {
                lemma_speaker_label_names_index(i as nat);
            },
            None => {},
        }
        assert forall|k: int|
            0 <= k < u.words.len() && usable_word(#[trigger] u.words[k]) implies {
                let n = count_where(u.words.take(k), |w: WordDtoView| usable_word(w));
                &&& n < s.words.len()
                &&& s.words[n as int] == expected_word(u.words[k])
            } by {
            lemma_word_law(u.words[k]);
            lemma_filter_map_index(u.words, f, k);
            lemma_count_where_agree(u.words.take(k), p, q);
        }
    }
}

/// What a decoded answer is made of: exactly one segment for each utterance
/// whose span is not inverted, in the utterances' order.
pub proof fn lemma_segments_law(us: Seq<UtteranceDtoView>)
    ensures
        segments_spec(us).len() == count_where(us, |u: UtteranceDtoView| u.timing.ordered),
        forall|k: int|
            0 <= k < us.len() && (#[trigger] us[k]).timing.ordered ==> {
                let n = count_where(us.take(k), |u: UtteranceDtoView| u.timing.ordered);
                &&& n < segments_spec(us).len()
                &&& segments_spec(us)[n as int] == segment_spec(us[k])->0
            },
{
    let f = |u: UtteranceDtoView| segment_spec(u);
    let p = |u: UtteranceDtoView| f(u) is Some;
    let q = |u: UtteranceDtoView| u.timing.ordered;
    assert forall|u: UtteranceDtoView| #[trigger] p(u) == q(u) by {
        lemma_segment_law(u);
    }
    lemma_filter_map_len(us, f);
    lemma_count_where_agree(us, p, q);
    assert forall|k: int|
        0 <= k < us.len() && (#[trigger] us[k]).timing.ordered implies {
            let n = count_where(us.take(k), |u: UtteranceDtoView| u.timing.ordered);
            &&& n < segments_spec(us).len()
            &&& segments_spec(us)[n as int] == segment_spec(us[k])->0
        } by {
        lemma_segment_law(us[k]);
        lemma_filter_map_index(us, f, k);
        lemma_count_where_agree(us.take(k), p, q);
    }
}

} // verus!
