//! Options of the pre-recorded transcription call.

use vstd::prelude::*;

verus! {

/// The options of one transcription, as the request sends them.
///
/// `utterances` is always on: it is what turns Deepgram's flat per-channel
/// transcript into segments. Deepgram's own `redact` option is deliberately
/// absent: redaction is Elide's job, and a provider-redacted transcript would
/// no longer match the audio whose offsets Elide needs.
#[derive(Clone, Debug)]
pub struct TranscriptionOptions {
    /// The model's wire name, such as `nova-3`.
    pub model: String,
    pub utterances: bool,
    pub punctuate: bool,
    pub diarize: bool,
    /// A caller-asserted BCP-47 tag; omitted means Deepgram detects it.
    pub language: Option<String>,
}

/// The options for one transcription with `model`, speaker labels when
/// `diarize`, and the asserted `language`, if any.
pub fn options(model: &str, diarize: bool, language: Option<&str>) -> (opts: TranscriptionOptions)
    ensures
        opts.model@ == model@,
        opts.utterances,
        opts.punctuate,
        opts.diarize == diarize,
        match language {
            Some(tag) => opts.language matches Some(l) && l@ == tag@,
            None => opts.language is None,
        },
{
    let language = match language {
        Some(tag) => Some(tag.to_owned()),
        None => None,
    };
    TranscriptionOptions {
        model: model.to_owned(),
        utterances: true,
        punctuate: true,
        diarize,
        language,
    }
}

} // verus!
