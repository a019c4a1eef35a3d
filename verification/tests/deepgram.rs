use elide_provider::deepgram_stt::error::{sdk_failure_kind, DeepgramBackendError, SdkFailure};
use elide_provider::deepgram_stt::request::options;
use elide_provider::deepgram_stt::response::{
    decode, segment, speaker_label, word, Response, Utterance, Word,
};
use elide_provider::deepgram_stt::DeepgramStt;
use elide_provider::primitive::{Confidence, ErrorKind, TimeSpan};
use elide_provider::stt::{span, Timing};

/// The caller's conversion of float seconds: rounded, negatives and
/// non-finite values clamped to zero.
fn to_ms(seconds: f64) -> u64 {
    if !seconds.is_finite() || seconds <= 0.0 {
        return 0;
    }
    (seconds * 1000.0).round() as u64
}

fn timing(start: f64, end: f64) -> Timing {
    Timing { start_ms: to_ms(start), end_ms: to_ms(end), ordered: end >= start }
}

fn confidence(score: f32) -> Confidence {
    Confidence { bits: score.to_bits() }
}

fn dg_word(text: &str, start: f64, end: f64) -> Word {
    Word { word: text.to_owned(), timing: timing(start, end), confidence: confidence(0.9) }
}

fn utterance(start: f64, end: f64, words: Vec<Word>) -> Utterance {
    Utterance {
        timing: timing(start, end),
        confidence: confidence(0.8),
        transcript: "  hello there \n".to_owned(),
        words,
        speaker: None,
    }
}

#[test]
fn rejects_spans_inverted_below_millisecond_resolution() {
    assert!(span(&timing(1.0004, 1.0003)).is_none());
    assert!(span(&timing(2.0, 1.0)).is_none());
    assert!(span(&timing(1.0, 1.0)).is_some());
}

#[test]
fn speaker_index_becomes_a_label() {
    assert_eq!(speaker_label(0), "SPEAKER_00");
    assert_eq!(speaker_label(12), "SPEAKER_12");
}

#[test]
fn speaker_labels_grow_past_two_digits() {
    assert_eq!(speaker_label(7), "SPEAKER_07");
    assert_eq!(speaker_label(123), "SPEAKER_123");
}

#[test]
fn span_keeps_rounded_milliseconds() {
    assert_eq!(span(&timing(1.9996, 2.4)), Some(TimeSpan { start_ms: 2000, end_ms: 2400 }));
}

#[test]
fn words_with_blank_text_or_inverted_spans_are_dropped() {
    assert!(word(&dg_word("   ", 0.0, 1.0)).is_none());
    assert!(word(&dg_word("hi", 1.0, 0.5)).is_none());
    let w = word(&dg_word(" hi ", 0.0, 0.5)).unwrap();
    assert_eq!(w.text, "hi");
    assert_eq!(w.span, TimeSpan { start_ms: 0, end_ms: 500 });
    assert_eq!(w.confidence, Some(confidence(0.9)));
}

#[test]
fn segment_trims_labels_and_keeps_usable_words() {
    let mut u = utterance(0.0, 2.0, vec![dg_word("hello", 0.0, 0.5), dg_word("", 0.5, 0.6)]);
    u.speaker = Some(3);
    let s = segment(&u).unwrap();
    assert_eq!(s.text, "hello there");
    assert_eq!(s.span, TimeSpan { start_ms: 0, end_ms: 2000 });
    assert_eq!(s.speaker_id.as_deref(), Some("SPEAKER_03"));
    assert_eq!(s.language, None);
    assert_eq!(s.confidence, Some(confidence(0.8)));
    assert_eq!(s.words.len(), 1);
    assert_eq!(s.words[0].text, "hello");
}

#[test]
fn inverted_utterances_are_dropped() {
    assert!(segment(&utterance(1.0004, 1.0003, vec![])).is_none());
}

#[test]
fn decode_keeps_usable_utterances_in_order() {
    let response = Response {
        utterances: Some(vec![
            utterance(0.0, 1.0, vec![]),
            utterance(3.0, 2.0, vec![]),
            utterance(2.0, 3.0, vec![]),
        ]),
    };
    let decoded = decode(response).unwrap();
    let spans: Vec<TimeSpan> = decoded.segments.iter().map(|s| s.span).collect();
    assert_eq!(
        spans,
        vec![
            TimeSpan { start_ms: 0, end_ms: 1000 },
            TimeSpan { start_ms: 2000, end_ms: 3000 },
        ]
    );
}

#[test]
fn an_answer_without_utterances_is_a_protocol_error() {
    match decode(Response { utterances: None }) {
        Err(e @ DeepgramBackendError::Protocol(_)) => {
            assert_eq!(e.kind(), ErrorKind::Provider);
            match e {
                DeepgramBackendError::Protocol(m) => {
                    assert_eq!(m, "response carried no utterances; the request asks for them")
                }
                _ => unreachable!(),
            }
        }
        _ => panic!("expected a protocol error"),
    }
}

#[test]
fn transport_shaped_sdk_failures_are_transport_errors() {
    assert_eq!(sdk_failure_kind(SdkFailure::Reqwest), ErrorKind::Transport);
    assert_eq!(sdk_failure_kind(SdkFailure::Http), ErrorKind::Transport);
    assert_eq!(sdk_failure_kind(SdkFailure::Io), ErrorKind::Transport);
    assert_eq!(sdk_failure_kind(SdkFailure::InvalidUrl), ErrorKind::Transport);
    assert_eq!(sdk_failure_kind(SdkFailure::Api), ErrorKind::Provider);
    assert_eq!(sdk_failure_kind(SdkFailure::Other), ErrorKind::Provider);
}

#[test]
fn sdk_errors_are_classified_by_variant() {
    let e = DeepgramBackendError::from_sdk(deepgram::DeepgramError::InvalidUrl);
    assert_eq!(e.kind(), ErrorKind::Transport);
    let e = DeepgramBackendError::from_sdk(deepgram::DeepgramError::InvalidOptions("x".to_owned()));
    assert_eq!(e.kind(), ErrorKind::Provider);
}

#[test]
fn options_always_ask_for_utterances() {
    let o = options("nova-3", true, Some("de"));
    assert_eq!(o.model, "nova-3");
    assert!(o.utterances);
    assert!(o.punctuate);
    assert!(o.diarize);
    assert_eq!(o.language.as_deref(), Some("de"));
    let o = options("nova-3", false, None);
    assert!(!o.diarize);
    assert!(o.language.is_none());
}

#[test]
fn backend_defaults_to_nova_3_without_diarization() {
    let backend = DeepgramStt::new("key").expect("client");
    assert_eq!(backend.model(), "nova-3");
    assert!(!backend.diarize());
    let event = backend.provenance();
    assert_eq!(event.name, "deepgram");
    assert_eq!(event.version.as_deref(), Some("nova-3"));
    assert!(!event.contextual);

    let backend = backend.with_model("whisper-large".to_owned()).with_diarization();
    assert_eq!(backend.model(), "whisper-large");
    assert!(backend.diarize());
    let o = backend.options(None);
    assert_eq!(o.model, "whisper-large");
    assert!(o.diarize);
}

#[test]
fn different_speakers_get_different_labels() {
    let labels: Vec<String> = [0usize, 1, 9, 10, 11, 99, 100].iter().map(|&i| speaker_label(i)).collect();
    for (i, a) in labels.iter().enumerate() {
        for b in labels.iter().skip(i + 1) {
            assert_ne!(a, b);
        }
    }
    assert_eq!(speaker_label(1), "SPEAKER_01");
    assert_eq!(speaker_label(10), "SPEAKER_10");
}

#[test]
fn sdk_errors_keep_their_variant_class() {
    let e = DeepgramBackendError::from_sdk(deepgram::DeepgramError::InvalidUrl);
    match e {
        DeepgramBackendError::Sdk { failure, .. } => assert_eq!(failure, SdkFailure::InvalidUrl),
        _ => panic!("expected an SDK error"),
    }
}
