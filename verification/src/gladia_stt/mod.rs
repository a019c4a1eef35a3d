//! The Gladia speech-to-text backend: the upload's filename and the
//! transcript of a finished job.

pub mod audio;
pub mod response;
