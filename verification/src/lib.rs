//! Verified core of the Elide provider backends.
//!
//! Each backend talks to a hosted or self-hosted model service and maps
//! its answers onto Elide's vocabulary of spans, segments and labels. This
//! crate holds those mappings and the decisions around them; the network
//! calls and the floating-point conversions live in the application around it.

pub mod bentoml_stt;
pub mod deepgram_stt;
pub mod gladia_stt;
pub mod ner;
pub mod pioneer_ner;
pub mod primitive;
pub mod stt;
pub mod text;
