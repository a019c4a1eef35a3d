use elide_provider::ner::NerSpan;
use elide_provider::pioneer_ner::error::PioneerError;
use elide_provider::pioneer_ner::request::WireRequest;
use elide_provider::pioneer_ner::response::{char_to_byte, WireEntity, WireResponse};
use elide_provider::pioneer_ner::{check_status, decode_body, PioneerNer, DEFAULT_THRESHOLD};
use elide_provider::primitive::{Confidence, ErrorKind};

fn confidence(score: f32) -> Confidence {
    Confidence { bits: score.to_bits() }
}

fn entity(text: &str, start: usize, end: usize) -> WireEntity {
    WireEntity {
        text: text.to_owned(),
        confidence: Some(confidence(0.9)),
        start: Some(start),
        end: Some(end),
    }
}

fn decode_one(source: &str, label: &str, entity: WireEntity) -> Option<NerSpan> {
    let entities = vec![(label.to_owned(), vec![entity])];
    WireResponse { entities }.decode(source).spans.into_iter().next()
}

#[test]
fn store_is_omitted_by_default() {
    let body = WireRequest::new("x", vec![], 0.5f32.to_bits(), false);
    assert!(body.store.is_none());
}

#[test]
fn zero_retention_sends_store_false() {
    let body = WireRequest::new("x", vec![], 0.5f32.to_bits(), true);
    assert_eq!(body.store, Some(false));
}

#[test]
fn confidence_and_spans_are_always_requested() {
    let body = WireRequest::new("x", vec![], 0.5f32.to_bits(), false);
    assert!(body.include_confidence);
    assert!(body.include_spans);
}

#[test]
fn character_offsets_become_byte_offsets() {
    let source = "Zoë lives in Paris";
    let span = decode_one(source, "city", entity("Paris", 13, 18)).unwrap();

    assert_eq!(span.offset, 14..19);
    assert_eq!(&source[span.offset.clone()], "Paris");
}

#[test]
fn ascii_offsets_are_unchanged() {
    let source = "Ada lives in Paris";
    let span = decode_one(source, "city", entity("Paris", 13, 18)).unwrap();

    assert_eq!(span.offset, 13..18);
    assert_eq!(&source[span.offset.clone()], "Paris");
}

#[test]
fn label_comes_from_the_group_key() {
    let span = decode_one("Ada lives in Paris", "city", entity("Paris", 13, 18)).unwrap();
    assert_eq!(span.label.as_str(), "city");
}

#[test]
fn drops_spans_past_the_end_of_the_text() {
    assert!(decode_one("short", "city", entity("Paris", 13, 18)).is_none());
}

#[test]
fn drops_inverted_and_empty_spans() {
    let source = "Ada lives in Paris";
    assert!(decode_one(source, "city", entity("Paris", 18, 13)).is_none());
    assert!(decode_one(source, "city", entity("", 13, 13)).is_none());
}

#[test]
fn drops_entities_without_offsets() {
    let without = WireEntity {
        text: "Paris".to_owned(),
        confidence: Some(confidence(0.9)),
        start: None,
        end: None,
    };
    assert!(decode_one("Ada lives in Paris", "city", without).is_none());
}

#[test]
fn drops_spans_disagreeing_with_the_echoed_text() {
    assert!(decode_one("Ada lives in Paris", "city", entity("Par", 13, 18)).is_none());
}

#[test]
fn char_to_byte_maps_every_character_and_the_end() {
    assert_eq!(char_to_byte("Zoë!"), vec![0, 1, 2, 4, 5]);
    assert_eq!(char_to_byte(""), vec![0]);
    assert_eq!(char_to_byte("a€𝄞"), vec![0, 1, 4, 8]);
}

#[test]
fn ascii_text_maps_characters_to_themselves() {
    assert_eq!(char_to_byte("Ada"), vec![0, 1, 2, 3]);
}

#[test]
fn missing_confidence_becomes_zero() {
    let mut e = entity("Paris", 13, 18);
    e.confidence = None;
    let span = decode_one("Ada lives in Paris", "city", e).unwrap();
    assert_eq!(span.confidence.bits, 0);
    assert_eq!(f32::from_bits(span.confidence.bits), 0.0);
}

#[test]
fn spans_keep_group_order_and_drop_only_the_bad_ones() {
    let source = "Ada met Bob in Paris";
    let entities = vec![
        ("person".to_owned(), vec![entity("Ada", 0, 3), entity("Bob", 8, 2), entity("Bob", 8, 11)]),
        ("city".to_owned(), vec![entity("Paris", 15, 20)]),
    ];
    let spans = WireResponse { entities }.decode(source).spans;
    let got: Vec<(String, std::ops::Range<usize>)> =
        spans.into_iter().map(|s| (s.label, s.offset)).collect();
    assert_eq!(
        got,
        vec![
            ("person".to_owned(), 0..3),
            ("person".to_owned(), 8..11),
            ("city".to_owned(), 15..20),
        ]
    );
}

#[test]
fn status_outside_2xx_is_a_rejection_with_its_body() {
    assert!(check_status(200, String::new()).is_ok());
    assert!(check_status(299, String::new()).is_ok());
    match check_status(401, "bad key".to_owned()) {
        Err(PioneerError::Rejected { status, body }) => {
            assert_eq!(status, 401);
            assert_eq!(body, "bad key");
        }
        _ => panic!("expected a rejection"),
    }
    assert!(check_status(199, String::new()).is_err());
    assert!(check_status(300, String::new()).is_err());
}

#[test]
fn undecodable_body_is_a_protocol_error() {
    match decode_body(Err("expected value at line 1".to_owned()), "text") {
        Err(e @ PioneerError::Protocol(_)) => {
            assert_eq!(e.kind(), ErrorKind::Provider);
            match e {
                PioneerError::Protocol(m) => assert_eq!(
                    m,
                    "could not decode the response body: expected value at line 1"
                ),
                _ => unreachable!(),
            }
        }
        _ => panic!("expected a protocol error"),
    }
}

#[test]
fn decoded_body_carries_the_spans() {
    let wire = WireResponse { entities: vec![("city".to_owned(), vec![entity("Paris", 13, 18)])] };
    let response = decode_body(Ok(wire), "Ada lives in Paris").unwrap();
    assert_eq!(response.spans.len(), 1);
    assert_eq!(response.spans[0].offset, 13..18);
}

#[test]
fn rejections_and_protocol_errors_are_provider_errors() {
    assert_eq!(
        PioneerError::Rejected { status: 422, body: String::new() }.kind(),
        ErrorKind::Provider
    );
    assert_eq!(PioneerError::Protocol("x".to_owned()).kind(), ErrorKind::Provider);
}

#[test]
fn backend_defaults_and_builders() {
    let backend = PioneerNer::new("pio_sk_secret_value".to_owned()).expect("client");
    assert_eq!(backend.base_url(), "https://api.pioneer.ai");
    assert_eq!(backend.endpoint(), "https://api.pioneer.ai/gliner-2");
    assert_eq!(backend.threshold(), DEFAULT_THRESHOLD);
    assert_eq!(f32::from_bits(backend.threshold()), 0.5);
    assert!(!backend.zero_retention());
    assert_eq!(backend.api_key(), "pio_sk_secret_value");

    let backend = backend.with_threshold(0.7f32.to_bits()).with_zero_retention();
    assert_eq!(f32::from_bits(backend.threshold()), 0.7);
    assert!(backend.zero_retention());
}

#[test]
fn trailing_slashes_are_dropped_from_the_base_url() {
    let backend =
        PioneerNer::with_base_url("k".to_owned(), "https://eu.example.com//".to_owned()).unwrap();
    assert_eq!(backend.base_url(), "https://eu.example.com");
    assert_eq!(backend.endpoint(), "https://eu.example.com/gliner-2");
}

#[test]
fn no_labels_means_no_request() {
    let backend = PioneerNer::new("k".to_owned()).unwrap().with_zero_retention();
    assert!(backend.request_for("text", vec![]).is_none());
    let req = backend.request_for("text", vec!["person".to_owned()]).unwrap();
    assert_eq!(req.task, "extract_entities");
    assert_eq!(req.text, "text");
    assert_eq!(req.schema, vec!["person".to_owned()]);
    assert_eq!(req.store, Some(false));
    assert!(req.format_results);
}

#[test]
fn provenance_names_the_route() {
    let backend = PioneerNer::new("k".to_owned()).unwrap();
    let event = backend.provenance();
    assert_eq!(event.name, "pioneer/gliner-2");
    assert!(event.version.is_none());
    assert!(!event.contextual);
}

#[test]
fn api_key_travels_in_the_x_api_key_header() {
    assert_eq!(elide_provider::pioneer_ner::API_KEY_HEADER, "X-API-Key");
}
