//! The Pioneer GLiNER2 named-entity backend: the backend's configuration,
//! request building, response decoding and the decisions of one recognition
//! call.
//!
//! One call goes: the label names to extract (none: answer empty without a
//! request), the request to [`PioneerNer::endpoint`], the answer's status
//! ([`check_status`]), and its body ([`decode_body`]).

pub mod error;
pub mod request;
pub mod response;

use vstd::prelude::*;

use crate::ner::NerResponse;
use crate::primitive::ModelEvent;
use crate::text::{push_char, strip_trailing_slashes, trim_trailing_slashes, utf8_len};

use self::error::PioneerError;
use self::request::WireRequest;
use self::response::{all_spans, is_offset_table, WireResponse};

verus! {

/// Declares `reqwest::Client` to the verifier; values of it are carried,
/// never inspected.
#[verifier::external_type_specification]
#[verifier::external_body]
pub struct ExReqwestClient(reqwest::Client);

/// Declares `reqwest::ClientBuilder` to the verifier.
#[verifier::external_type_specification]
#[verifier::external_body]
pub struct ExReqwestClientBuilder(reqwest::ClientBuilder);

/// `reqwest::Client::clone`, which hands out another handle to the same
/// client; nothing about the result is stated here.
pub assume_specification[ <reqwest::Client as Clone>::clone ](client: &reqwest::Client) -> reqwest::Client;

/// Calls `reqwest::Client::builder`, a builder with reqwest's defaults.
#[verifier::external_body]
fn client_builder() -> reqwest::ClientBuilder {
    reqwest::Client::builder()
}

/// Calls `reqwest::ClientBuilder::build`, which fails when the TLS backend
/// cannot be initialized or the system configuration cannot be loaded; when
/// it fails is not stated here.
#[verifier::external_body]
fn build_client(builder: reqwest::ClientBuilder) -> Result<reqwest::Client, reqwest::Error> {
    builder.build()
}

/// Pioneer's public API root.
pub const DEFAULT_BASE_URL: &'static str = "https://api.pioneer.ai";

/// The GLiNER2 extraction route.
pub const ROUTE: &'static str = "gliner-2";

/// The header the API key is sent in.
pub const API_KEY_HEADER: &'static str = "X-API-Key";

/// Model identifier reported in provenance: the route, since it takes no
/// model selector.
pub const MODEL_ID: &'static str = "pioneer/gliner-2";

/// Default per-label confidence cutoff `0.5`, as the bit pattern of an `f32`.
pub const DEFAULT_THRESHOLD: u32 = 0x3F00_0000;

/// A named-entity backend over Pioneer's hosted GLiNER2 API.
///
/// This sends the text to be scanned to a third party.
#[derive(Clone)]
pub struct PioneerNer {
    http: reqwest::Client,
    base_url: String,
    api_key: String,
    threshold: u32,
    zero_retention: bool,
}

impl PioneerNer {
    /// The API root requests go to, without trailing slashes.
    pub closed spec fn base_url_spec(&self) -> Seq<char> {
        self.base_url@
    }

    /// The API key sent with every request.
    pub closed spec fn api_key_spec(&self) -> Seq<char> {
        self.api_key@
    }

    /// The per-label confidence cutoff, as the bit pattern of an `f32`.
    pub closed spec fn threshold_spec(&self) -> u32 {
        self.threshold
    }

    /// Whether requests ask Pioneer not to persist them.
    pub closed spec fn zero_retention_spec(&self) -> bool {
        self.zero_retention
    }

    /// The HTTP client requests go through.
    pub closed spec fn http_spec(&self) -> reqwest::Client {
        self.http
    }

    /// Build from an API key, against Pioneer's public endpoint.
    pub fn new(api_key: String) -> (backend: Result<PioneerNer, PioneerError>)
        ensures
            match backend {
                Ok(b) => {
                    &&& b.base_url_spec() == DEFAULT_BASE_URL@
                    &&& b.api_key_spec() == api_key@
                    &&& b.threshold_spec() == DEFAULT_THRESHOLD
                    &&& !b.zero_retention_spec()
                },
                Err(e) => e is Transport,
            },
    {
        let backend = Self::with_base_url(api_key, DEFAULT_BASE_URL.to_owned());
        proof {
            reveal_strlit("https://api.pioneer.ai");
            assert(strip_trailing_slashes(DEFAULT_BASE_URL@) == DEFAULT_BASE_URL@);
        }
        backend
    }

    /// Build against a specific API root; trailing slashes are dropped from
    /// it. Fails only when the HTTP client cannot be built.
    pub fn with_base_url(api_key: String, base_url: String) -> (backend: Result<
        PioneerNer,
        PioneerError,
    >)
        ensures
            match backend {
                Ok(b) => {
                    &&& b.base_url_spec() == strip_trailing_slashes(base_url@)
                    &&& b.api_key_spec() == api_key@
                    &&& b.threshold_spec() == DEFAULT_THRESHOLD
                    &&& !b.zero_retention_spec()
                },
                Err(e) => e is Transport,
            },
    {
        let http = match build_client(client_builder()) {
            Ok(http) => http,
            Err(err) => return Err(PioneerError::Transport(err)),
        };
        let base_url = trim_trailing_slashes(base_url.as_str()).to_owned();
        Ok(PioneerNer { http, base_url, api_key, threshold: DEFAULT_THRESHOLD, zero_retention: false })
    }

    /// Set the per-label confidence cutoff, given as the bit pattern of an
    /// `f32`. Defaults to `0.5`.
    pub fn with_threshold(self, threshold: u32) -> (backend: PioneerNer)
        ensures
            backend.threshold_spec() == threshold,
            backend.http_spec() == self.http_spec(),
            backend.base_url_spec() == self.base_url_spec(),
            backend.api_key_spec() == self.api_key_spec(),
            backend.zero_retention_spec() == self.zero_retention_spec(),
    {
        let mut backend = self;
        backend.threshold = threshold;
        backend
    }

    /// Ask Pioneer not to persist the request or its response.
    pub fn with_zero_retention(self) -> (backend: PioneerNer)
        ensures
            backend.zero_retention_spec(),
            backend.http_spec() == self.http_spec(),
            backend.base_url_spec() == self.base_url_spec(),
            backend.api_key_spec() == self.api_key_spec(),
            backend.threshold_spec() == self.threshold_spec(),
    {
        let mut backend = self;
        backend.zero_retention = true;
        backend
    }

    /// The model this backend reports: the route, with no version.
    pub fn provenance(&self) -> (event: ModelEvent)
        ensures
            event.name@ == MODEL_ID@,
            event.version is None,
            !event.contextual,
    {
        ModelEvent { name: MODEL_ID.to_owned(), version: None, contextual: false }
    }

    /// The request body for `text` and the label names to extract, or
    /// `None` when there are no labels: there is then nothing to ask, and
    /// the answer is an empty response.
    pub fn request_for<'a>(&self, text: &'a str, labels: Vec<String>) -> (req: Option<
        WireRequest<'a>,
    >)
        ensures
            labels@.len() == 0 <==> req is None,
            match req {
                Some(r) => {
                    &&& r.task@ == request::TASK@
                    &&& r.text == text
                    &&& r.schema == labels
                    &&& r.threshold == self.threshold_spec()
                    &&& r.include_confidence && r.include_spans && r.format_results
                    &&& r.store == (if self.zero_retention_spec() {
                        Some(false)
                    } else {
                        None
                    })
                },
                None => true,
            },
    {
        if labels.len() == 0 {
            return None;
        }
        Some(WireRequest::new(text, labels, self.threshold, self.zero_retention))
    }

    /// The URL requests are posted to: the API root, `/`, and the route.
    pub fn endpoint(&self) -> (url: String)
        ensures
            url@ == self.base_url_spec() + seq!['/'] + ROUTE@,
    {
        let mut url = self.base_url.clone();
        push_char(&mut url, '/');
        url.append(ROUTE);
        url
    }

    /// The API key, sent in the [`API_KEY_HEADER`] header.
    pub fn api_key(&self) -> (key: &str)
        ensures
            key@ == self.api_key_spec(),
    {
        self.api_key.as_str()
    }

    /// The HTTP client requests go through.
    pub fn http(&self) -> (http: &reqwest::Client)
        ensures
            *http == self.http_spec(),
    {
        &self.http
    }

    /// The API root, without trailing slashes.
    pub fn base_url(&self) -> (url: &str)
        ensures
            url@ == self.base_url_spec(),
    {
        self.base_url.as_str()
    }

    /// The per-label confidence cutoff, as the bit pattern of an `f32`.
    pub fn threshold(&self) -> (threshold: u32)
        ensures
            threshold == self.threshold_spec(),
    {
        self.threshold
    }

    /// Whether requests ask Pioneer not to persist them.
    pub fn zero_retention(&self) -> (on: bool)
        ensures
            on == self.zero_retention_spec(),
    {
        self.zero_retention
    }
}

/// Whether an HTTP status is a success: `200..300`.
pub open spec fn is_success(status: u16) -> bool {
    200 <= status < 300
}

/// Whether an HTTP status is a success.
pub fn is_success_status(status: u16) -> (ok: bool)
    ensures
        ok == is_success(status),
{
    200 <= status && status < 300
}

/// The answer's status decides whether its body is read: a success passes;
/// anything else is a rejection carrying the status and the body Pioneer
/// explained it in.
pub fn check_status(status: u16, body: String) -> (checked: Result<(), PioneerError>)
    ensures
        is_success(status) <==> checked is Ok,
        match checked {
            Err(PioneerError::Rejected { status: s, body: b }) => s == status && b == body,
            Err(_) => false,
            Ok(_) => true,
        },
{
    if is_success_status(status) {
        Ok(())
    } else {
        Err(PioneerError::Rejected { status, body })
    }
}

/// The message prefix of an undecodable body.
pub const UNDECODABLE: &'static str = "could not decode the response body: ";

/// The answer to a call, from the body as parsed (or the parser's message
/// when it would not parse) and the text that was submitted.
pub fn decode_body(parsed: Result<WireResponse, String>, source: &str) -> (response: Result<
    NerResponse,
    PioneerError,
>)
    requires
        utf8_len(source@) <= usize::MAX,
        parsed matches Ok(w) ==> w.texts_fit(),
    ensures
        match (parsed, response) {
            (Ok(w), Ok(r)) => exists|offsets: Seq<usize>|
                is_offset_table(source@, offsets) && r.span_views() == all_spans(
                    w.entities@,
                    offsets,
                ),
            (Err(msg), Err(PioneerError::Protocol(m))) => m@ == UNDECODABLE@ + msg@,
            _ => false,
        },
{
    match parsed {
        Ok(wire) => Ok(wire.decode(source)),
        Err(msg) => {
            let mut m = UNDECODABLE.to_owned();
            m.append(msg.as_str());
            Err(PioneerError::Protocol(m))
        },
    }
}

} // verus!
