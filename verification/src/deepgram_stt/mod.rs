//! The Deepgram speech-to-text backend: its configuration, the options of a
//! transcription, and the reading of Deepgram's answers.
//!
//! This backend sends raw audio to a third party. One transcription goes:
//! [`DeepgramStt::options`] for the request, the call itself, then
//! [`response::decode`] on the answer (or [`error::DeepgramBackendError`]
//! when the call fails).

pub mod error;
pub mod request;
pub mod response;

use vstd::prelude::*;

use crate::primitive::ModelEvent;

use self::error::DeepgramBackendError;
use self::request::{options, TranscriptionOptions};

verus! {

/// Declares `deepgram::Deepgram` to the verifier; values of it are carried,
/// never inspected.
#[verifier::external_type_specification]
#[verifier::external_body]
pub struct ExDeepgram(deepgram::Deepgram);

/// `deepgram::Deepgram::clone`, the field-by-field clone its derive writes;
/// nothing about the result is stated here.
pub assume_specification[ <deepgram::Deepgram as Clone>::clone ](client: &deepgram::Deepgram) -> deepgram::Deepgram;

/// The API key a Deepgram client authenticates with: the key its `auth`
/// holds.
pub uninterp spec fn client_api_key(client: deepgram::Deepgram) -> Seq<char>;

/// Calls `deepgram::Deepgram::new`, a client for Deepgram's public endpoint
/// that stores `api_key` as its authentication; it fails when the HTTP client
/// cannot be built, which depends on the machine, so when it fails is not
/// stated here.
#[verifier::external_body]
fn connect(api_key: &str) -> (client: Result<deepgram::Deepgram, deepgram::DeepgramError>)
    ensures
        client matches Ok(c) ==> client_api_key(c) == api_key@,
{
    deepgram::Deepgram::new(api_key)
}

/// The default model's wire name: Deepgram's current general model.
pub const DEFAULT_MODEL: &'static str = "nova-3";

/// The name this backend reports in provenance.
pub const PROVIDER_NAME: &'static str = "deepgram";

/// A speech-to-text backend over Deepgram's hosted transcription API.
///
/// Diarization is off unless [`DeepgramStt::with_diarization`] is called.
#[derive(Debug, Clone)]
pub struct DeepgramStt {
    client: deepgram::Deepgram,
    model: String,
    diarize: bool,
}

impl DeepgramStt {
    /// The wire name of the model transcriptions use.
    pub closed spec fn model_spec(&self) -> Seq<char> {
        self.model@
    }

    /// Whether speaker labels are requested.
    pub closed spec fn diarize_spec(&self) -> bool {
        self.diarize
    }

    /// The client transcriptions go through.
    pub closed spec fn client_spec(&self) -> deepgram::Deepgram {
        self.client
    }

    /// Build from an API key, against Deepgram's public endpoint.
    pub fn new(api_key: &str) -> (backend: Result<DeepgramStt, DeepgramBackendError>)
        ensures
            match backend {
                Ok(b) => {
                    &&& client_api_key(b.client_spec()) == api_key@
                    &&& b.model_spec() == DEFAULT_MODEL@
                    &&& !b.diarize_spec()
                },
                Err(e) => e is Sdk,
            },
    {
        match connect(api_key) {
            Ok(client) => Ok(Self::from_client(client)),
            Err(err) => Err(DeepgramBackendError::from_sdk(err)),
        }
    }

    /// Build from a pre-configured client, for a regional or self-hosted
    /// endpoint.
    pub fn from_client(client: deepgram::Deepgram) -> (backend: DeepgramStt)
        ensures
            backend.client_spec() == client,
            backend.model_spec() == DEFAULT_MODEL@,
            !backend.diarize_spec(),
    {
        DeepgramStt { client, model: DEFAULT_MODEL.to_owned(), diarize: false }
    }

    /// Transcribe with the model of wire name `model` rather than the
    /// default.
    pub fn with_model(self, model: String) -> (backend: DeepgramStt)
        ensures
            backend.model_spec() == model@,
            backend.diarize_spec() == self.diarize_spec(),
            backend.client_spec() == self.client_spec(),
    {
        let mut backend = self;
        backend.model = model;
        backend
    }

    /// Request speaker labels. Deepgram detects the speaker count itself.
    pub fn with_diarization(self) -> (backend: DeepgramStt)
        ensures
            backend.model_spec() == self.model_spec(),
            backend.diarize_spec(),
            backend.client_spec() == self.client_spec(),
    {
        let mut backend = self;
        backend.diarize = true;
        backend
    }

    /// The model this backend reports: the provider, with the model as the
    /// version, since different models are different transcribers.
    pub fn provenance(&self) -> (event: ModelEvent)
        ensures
            event.name@ == PROVIDER_NAME@,
            event.version matches Some(v) && v@ == self.model_spec(),
            !event.contextual,
    {
        ModelEvent {
            name: PROVIDER_NAME.to_owned(),
            version: Some(self.model.clone()),
            contextual: false,
        }
    }

    /// The options of a transcription with this backend's model and
    /// diarization, in the caller-asserted `language`, if any.
    pub fn options(&self, language: Option<&str>) -> (opts: TranscriptionOptions)
        ensures
            opts.model@ == self.model_spec(),
            opts.utterances,
            opts.punctuate,
            opts.diarize == self.diarize_spec(),
            match language {
                Some(tag) => opts.language matches Some(l) && l@ == tag@,
                None => opts.language is None,
            },
    {
        options(self.model.as_str(), self.diarize, language)
    }

    /// The client transcriptions go through.
    pub fn client(&self) -> (client: &deepgram::Deepgram)
        ensures
            *client == self.client_spec(),
    {
        &self.client
    }

    /// The wire name of the model transcriptions use.
    pub fn model(&self) -> (model: &str)
        ensures
            model@ == self.model_spec(),
    {
        self.model.as_str()
    }

    /// Whether speaker labels are requested.
    pub fn diarize(&self) -> (on: bool)
        ensures
            on == self.diarize_spec(),
    {
        self.diarize
    }
}

} // verus!
