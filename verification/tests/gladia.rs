use elide_provider::gladia_stt::audio::upload_filename;
use elide_provider::gladia_stt::response::{
    decode, segment, speaker_label, GladiaError, PreRecordedResponse, PreRecordedResponseStatus,
    Transcription, TranscriptionResult, UtteranceDto, WordDto,
};
use elide_provider::primitive::{Confidence, TimeSpan};
use elide_provider::stt::Timing;

fn to_ms(seconds: f64) -> u64 {
    if !seconds.is_finite() || seconds <= 0.0 {
        return 0;
    }
    (seconds * 1000.0).round() as u64
}

fn timing(start: f64, end: f64) -> Timing {
    Timing { start_ms: to_ms(start), end_ms: to_ms(end), ordered: !(end < start) }
}

fn utterance(start: f64, end: f64, words: Vec<WordDto>) -> UtteranceDto {
    UtteranceDto {
        timing: timing(start, end),
        confidence: Confidence { bits: 0.9f32.to_bits() },
        text: "x".to_owned(),
        speaker: None,
        language: Some("en".to_owned()),
        words,
    }
}

fn word(start: f64, end: f64) -> WordDto {
    WordDto {
        word: "w".to_owned(),
        timing: timing(start, end),
        confidence: Confidence { bits: 0.9f32.to_bits() },
    }
}

fn done(utterances: Vec<UtteranceDto>) -> PreRecordedResponse {
    PreRecordedResponse {
        status: PreRecordedResponseStatus::Done,
        error_code: None,
        result: Some(TranscriptionResult { transcription: Some(Transcription { utterances }) }),
    }
}

#[test]
fn detects_mp3_by_id3_tag_or_frame_sync() {
    assert_eq!(upload_filename(b"ID3\x04\0\0\0"), "audio.mp3");
    assert_eq!(upload_filename(&[0xFF, 0xFB, 0x90, 0x00]), "audio.mp3");
    assert_eq!(upload_filename(&[0xFF, 0xF3, 0x90, 0x00]), "audio.mp3");
}

#[test]
fn adts_aac_is_not_mistaken_for_mp3() {
    assert_eq!(upload_filename(&[0xFF, 0xF1, 0x50, 0x80]), "audio.wav");
    assert_eq!(upload_filename(&[0xFF, 0xF9, 0x50, 0x80]), "audio.wav");
}

#[test]
fn everything_else_is_wav() {
    assert_eq!(upload_filename(b"RIFF\0\0\0\0WAVEfmt "), "audio.wav");
    assert_eq!(upload_filename(b"not audio at all"), "audio.wav");
    assert_eq!(upload_filename(b""), "audio.wav");
}

#[test]
fn frame_sync_needs_three_bytes() {
    assert_eq!(upload_filename(&[0xFF, 0xFB]), "audio.wav");
    assert_eq!(upload_filename(&[0xFF, 0xF2, 0x00]), "audio.mp3");
}

#[test]
fn drops_spans_inverted_below_millisecond_resolution() {
    assert!(segment(&utterance(1.0004, 1.0003, vec![])).is_none());
    assert_eq!(
        segment(&utterance(0.0, 2.0, vec![word(1.0004, 1.0003), word(0.0, 0.5)]))
            .unwrap()
            .words
            .len(),
        1
    );
}

#[test]
fn response_speaker_index_becomes_a_label() {
    let mut diarized = utterance(0.0, 1.0, vec![]);
    diarized.speaker = Some(0);
    assert_eq!(segment(&diarized).unwrap().speaker_id.as_deref(), Some("SPEAKER_00"));
    assert_eq!(speaker_label(5), "SPEAKER_05");
}

#[test]
fn segment_carries_language_and_rounded_span() {
    let s = segment(&utterance(0.0004, 1.9996, vec![])).unwrap();
    assert_eq!(s.span, TimeSpan { start_ms: 0, end_ms: 2000 });
    assert_eq!(s.language.as_deref(), Some("en"));
    assert_eq!(s.text, "x");
}

#[test]
fn done_job_decodes_its_usable_utterances() {
    let decoded =
        decode(done(vec![utterance(0.0, 1.0, vec![]), utterance(2.0, 1.0, vec![])])).unwrap();
    assert_eq!(decoded.segments.len(), 1);
}

#[test]
fn unfinished_job_is_an_error_naming_its_state() {
    let job = PreRecordedResponse {
        status: PreRecordedResponseStatus::Error,
        error_code: Some(500),
        result: None,
    };
    match decode(job) {
        Err(GladiaError::Failed(m)) => assert_eq!(m, "job finished as Error (error_code Some(500))"),
        Ok(_) => panic!("expected a failure"),
    }
    let job = PreRecordedResponse {
        status: PreRecordedResponseStatus::Queued,
        error_code: None,
        result: None,
    };
    match decode(job) {
        Err(GladiaError::Failed(m)) => assert_eq!(m, "job finished as Queued (error_code None)"),
        Ok(_) => panic!("expected a failure"),
    }
    let job = PreRecordedResponse {
        status: PreRecordedResponseStatus::Processing,
        error_code: Some(-7),
        result: None,
    };
    match decode(job) {
        Err(GladiaError::Failed(m)) => {
            assert_eq!(m, "job finished as Processing (error_code Some(-7))")
        }
        Ok(_) => panic!("expected a failure"),
    }
}

#[test]
fn done_job_without_transcription_is_an_error() {
    let job = PreRecordedResponse {
        status: PreRecordedResponseStatus::Done,
        error_code: None,
        result: Some(TranscriptionResult { transcription: None }),
    };
    match decode(job) {
        Err(GladiaError::Failed(m)) => assert_eq!(m, "done job carried no transcription"),
        Ok(_) => panic!("expected a failure"),
    }
}
