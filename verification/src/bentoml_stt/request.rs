//! Outgoing body of the `/transcribe` endpoint: base64-encoded audio bytes,
//! an optional filename and an optional language hint.

use base64::Engine;
use vstd::prelude::*;

use crate::stt::SttRequest;

verus! {

/// The symbol of the standard base64 alphabet for the six-bit value `v`.
pub open spec fn base64_symbol(v: int) -> char {
    if v < 26 {
        (65 + v) as char
    } else if v < 52 {
        (97 + v - 26) as char
    } else if v < 62 {
        (48 + v - 52) as char
    } else if v == 62 {
        '+'
    } else {
        '/'
    }
}

/// The standard base64 encoding of `b` (RFC 4648, with `=` padding): each
/// group of three bytes becomes four symbols, and a final group of one or
/// two bytes is padded to four.
pub open spec fn base64_encode(b: Seq<u8>) -> Seq<char>
    decreases b.len(),
{
    if b.len() == 0 {
        Seq::empty()
    } else if b.len() == 1 {
        seq![base64_symbol(b[0] as int / 4), base64_symbol((b[0] % 4) * 16), '=', '=']
    } else if b.len() == 2 {
        seq![
            base64_symbol(b[0] as int / 4),
            base64_symbol((b[0] % 4) * 16 + b[1] / 16),
            base64_symbol((b[1] % 16) * 4),
            '=',
        ]
    } else {
        seq![
            base64_symbol(b[0] as int / 4),
            base64_symbol((b[0] % 4) * 16 + b[1] / 16),
            base64_symbol((b[1] % 16) * 4 + b[2] / 64),
            base64_symbol(b[2] as int % 64),
        ] + base64_encode(b.skip(3))
    }
}

/// The six-bit value a symbol of the standard base64 alphabet stands for.
pub open spec fn base64_value(c: char) -> int {
    let v = c as int;
    if 65 <= v <= 90 {
        v - 65
    } else if 97 <= v <= 122 {
        v - 97 + 26
    } else if 48 <= v <= 57 {
        v - 48 + 52
    } else if c == '+' {
        62
    } else {
        63
    }
}

/// The bytes a standard base64 text with `=` padding stands for: each group
/// of four symbols gives three bytes, and a padded final group gives one or
/// two.
pub open spec fn base64_decode(s: Seq<char>) -> Seq<u8>
    decreases s.len(),
{
    if s.len() < 4 {
        Seq::empty()
    } else {
        let v0 = base64_value(s[0]);
        let v1 = base64_value(s[1]);
        let v2 = base64_value(s[2]);
        let v3 = base64_value(s[3]);
        let b0 = (v0 * 4 + v1 / 16) as u8;
        let b1 = ((v1 % 16) * 16 + v2 / 4) as u8;
        let b2 = ((v2 % 4) * 64 + v3) as u8;
        if s[2] == '=' {
            seq![b0]
        } else if s[3] == '=' {
            seq![b0, b1]
        } else {
            seq![b0, b1, b2] + base64_decode(s.skip(4))
        }
    }
}

/// Each symbol stands for the value it was chosen for, and none is the
/// padding character.
pub proof fn lemma_base64_symbol_value(v: int)
    requires
        0 <= v < 64,
    ensures
        base64_value(base64_symbol(v)) == v,
        base64_symbol(v) != '=',
{
    if v < 26 {
        assert(((65 + v) as char) as int == 65 + v);
    } else if v < 52 {
        assert(((97 + v - 26) as char) as int == 97 + v - 26);
    } else if v < 62 {
        assert(((48 + v - 52) as char) as int == 48 + v - 52);
    } else {
        assert(('+' as int) == 43);
        assert(('/' as int) == 47);
        assert(('=' as int) == 61);
    }
}

/// Splitting bytes into six-bit values and joining them again gives the
/// bytes back.
pub proof fn lemma_base64_group(b0: u8, b1: u8, b2: u8)
    ensures
        ({
            let v0 = b0 as int / 4;
            let v1 = (b0 as int % 4) * 16 + b1 as int / 16;
            let v2 = (b1 as int % 16) * 4 + b2 as int / 64;
            let v3 = b2 as int % 64;
            &&& 0 <= v0 < 64 && 0 <= v1 < 64 && 0 <= v2 < 64 && 0 <= v3 < 64
            &&& v0 * 4 + v1 / 16 == b0 as int
            &&& (v1 % 16) * 16 + v2 / 4 == b1 as int
            &&& (v2 % 4) * 64 + v3 == b2 as int
        }),
{
    let v1 = (b0 as int % 4) * 16 + b1 as int / 16;
    let v2 = (b1 as int % 16) * 4 + b2 as int / 64;
    assert(v1 / 16 == b0 as int % 4);
    assert(v1 % 16 == b1 as int / 16);
    assert(v2 / 4 == b1 as int % 16);
    assert(v2 % 4 == b2 as int / 64);
}

/// The body's audio decodes back to the request's bytes: decoding the
/// standard padded base64 encoding of any bytes gives those bytes.
pub proof fn lemma_base64_round_trip(b: Seq<u8>)
    ensures
        base64_decode(base64_encode(b)) == b,
    decreases b.len(),
{
    let e = base64_encode(b);
    if b.len() == 0 {
    } else if b.len() == 1 {
        lemma_base64_group(b[0], 0, 0);
        lemma_base64_symbol_value(b[0] as int / 4);
        lemma_base64_symbol_value((b[0] as int % 4) * 16);
        assert(base64_decode(e) =~= b);
    } else if b.len() == 2 {
        lemma_base64_group(b[0], b[1], 0);
        lemma_base64_symbol_value(b[0] as int / 4);
        lemma_base64_symbol_value((b[0] as int % 4) * 16 + b[1] as int / 16);
        lemma_base64_symbol_value((b[1] as int % 16) * 4);
        assert(base64_decode(e) =~= b);
    } else {
        lemma_base64_group(b[0], b[1], b[2]);
        lemma_base64_symbol_value(b[0] as int / 4);
        lemma_base64_symbol_value((b[0] as int % 4) * 16 + b[1] as int / 16);
        lemma_base64_symbol_value((b[1] as int % 16) * 4 + b[2] as int / 64);
        lemma_base64_symbol_value(b[2] as int % 64);
        lemma_base64_round_trip(b.skip(3));
        assert(e.skip(4) =~= base64_encode(b.skip(3)));
        assert(b =~= seq![b[0], b[1], b[2]] + b.skip(3));
        assert(base64_decode(e) =~= b);
    }
}

/// Calls `base64::engine::general_purpose::STANDARD.encode`: the standard
/// alphabet with padding. It panics only when the encoded length overflows
/// a `usize`, which `requires` rules out.
#[verifier::external_body]
fn encode_base64(bytes: &[u8]) -> (encoded: String)
    requires
        bytes@.len() / 3 * 4 + 4 <= usize::MAX,
    ensures
        encoded@ == base64_encode(bytes@),
{
    base64::engine::general_purpose::STANDARD.encode(bytes)
}

/// Outgoing per-call request body.
#[derive(Clone, Debug)]
pub struct WireSttRequest {
    /// Base64-encoded audio bytes.
    pub audio: String,
    /// Used by the service for container detection; always `None` here,
    /// since a request carries only bytes and the service sniffs them.
    pub filename: Option<String>,
    /// Caller-asserted language as a BCP-47 tag, when supplied.
    pub language: Option<String>,
}

impl WireSttRequest {
    /// The body for `request`.
    pub fn from_request(request: &SttRequest<'_>) -> (body: WireSttRequest)
        requires
            request.audio@.len() / 3 * 4 + 4 <= usize::MAX,
        ensures
            body.audio@ == base64_encode(request.audio@),
            base64_decode(body.audio@) == request.audio@,
            body.filename is None,
            match request.language {
                Some(tag) => body.language matches Some(l) && l@ == tag@,
                None => body.language is None,
            },
    {
        let language = match request.language {
            Some(tag) => Some(tag.to_owned()),
            None => None,
        };
        proof {
            lemma_base64_round_trip(request.audio@);
        }
        WireSttRequest { audio: encode_base64(request.audio), filename: None, language }
    }
}

} // verus!
