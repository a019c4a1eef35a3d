//! Container detection for the upload.
//!
//! Gladia identifies the container from the filename's extension, so an
//! upload needs one; the request carries only bytes, so the name comes from
//! their magic number.

use vstd::prelude::*;

verus! {

/// Whether `buf` starts like MP3 data: an ID3v2 tag, or an MPEG audio frame
/// sync with one of the layer III headers `FF FB`, `FF F3` or `FF F2`; at
/// least three bytes are needed either way.
pub open spec fn is_mp3_spec(buf: Seq<u8>) -> bool {
    buf.len() > 2 && ((buf[0] == 0x49 && buf[1] == 0x44 && buf[2] == 0x33) || (buf[0] == 0xFF && (
    buf[1] == 0xFB || buf[1] == 0xF3 || buf[1] == 0xF2)))
}

/// Calls `infer::audio::is_mp3`, whose source checks exactly
/// [`is_mp3_spec`].
#[verifier::external_body]
fn is_mp3(buf: &[u8]) -> (mp3: bool)
    ensures
        mp3 == is_mp3_spec(buf@),
{
    infer::audio::is_mp3(buf)
}

/// The name of an MP3 upload.
pub const MP3_NAME: &'static str = "audio.mp3";

/// The name of every other upload.
pub const WAV_NAME: &'static str = "audio.wav";

/// The upload filename for `audio`.
///
/// Falls back to `audio.wav` when the bytes are not recognisably MP3: Gladia
/// sniffs the payload itself, so a wrong guess is recoverable, whereas no
/// extension at all leaves it nothing to dispatch on.
pub fn upload_filename(audio: &[u8]) -> (name: &'static str)
    ensures
        name@ == (if is_mp3_spec(audio@) {
            MP3_NAME@
        } else {
            WAV_NAME@
        }),
{
    if is_mp3(audio) {
        return MP3_NAME;
    }
    WAV_NAME
}

} // verus!
