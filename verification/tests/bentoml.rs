use base64::Engine;
use elide_provider::bentoml_stt::request::WireSttRequest;
use elide_provider::stt::SttRequest;

#[test]
fn audio_is_base64_encoded_with_padding() {
    let body = WireSttRequest::from_request(&SttRequest { audio: b"Man", language: None });
    assert_eq!(body.audio, "TWFu");
    let body = WireSttRequest::from_request(&SttRequest { audio: b"Ma", language: None });
    assert_eq!(body.audio, "TWE=");
    let body = WireSttRequest::from_request(&SttRequest { audio: b"M", language: None });
    assert_eq!(body.audio, "TQ==");
    let body = WireSttRequest::from_request(&SttRequest { audio: &[0xFF, 0xEF], language: None });
    assert_eq!(body.audio, "/+8=");
    let body = WireSttRequest::from_request(&SttRequest { audio: b"", language: None });
    assert_eq!(body.audio, "");
}

#[test]
fn filename_is_never_sent_and_language_is_copied() {
    let body = WireSttRequest::from_request(&SttRequest { audio: b"x", language: Some("fr-CA") });
    assert!(body.filename.is_none());
    assert_eq!(body.language.as_deref(), Some("fr-CA"));
    let body = WireSttRequest::from_request(&SttRequest { audio: b"x", language: None });
    assert!(body.language.is_none());
}

#[test]
fn audio_decodes_back_to_the_request_bytes() {
    let audio: Vec<u8> = (0u8..=255).collect();
    for n in [0usize, 1, 2, 3, 4, 5, 256] {
        let bytes = &audio[..n.min(audio.len())];
        let body = WireSttRequest::from_request(&SttRequest { audio: bytes, language: None });
        let decoded = base64::engine::general_purpose::STANDARD.decode(&body.audio).unwrap();
        assert_eq!(decoded, bytes);
    }
}
