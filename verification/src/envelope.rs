//! Payload decoding at the edges: the JSON-validity test and the canonical
//! base64 envelope that wraps bytes which are not JSON.  A record is never
//! dropped for being undecodable; it travels inside the envelope instead.

use base64::Engine;
use vstd::prelude::*;

use crate::bus::SourcePayload;

verus! {

/// The base64 text that encodes a byte sequence.
pub uninterp spec fn b64_of(bytes: Seq<u8>) -> Seq<char>;

/// Whether a byte sequence is a valid JSON document.
pub uninterp spec fn json_ok(bytes: Seq<u8>) -> bool;

/// Relies on base64's standard-alphabet engine: encoding is a function of
/// the bytes alone.
#[verifier::external_body]
pub fn b64_encode(bytes: &[u8]) -> (r: String)
    ensures
        r@ == b64_of(bytes@),
{
    base64::engine::general_purpose::STANDARD.encode(bytes)
}

/// What decoding promises: a string that is the encoding of some bytes
/// decodes to exactly those bytes.
pub open spec fn decodes_encoding_of(s: Seq<char>, r: Option<Vec<u8>>) -> bool {
    forall|x: Seq<u8>| s == b64_of(x) ==> (r matches Option::Some(b) && b@ == x)
}

/// Relies on base64's standard-alphabet engine: decoding inverts encoding.
#[verifier::external_body]
pub fn b64_decode(s: &str) -> (r: Option<Vec<u8>>)
    ensures
        decodes_encoding_of(s@, r),
{
    base64::engine::general_purpose::STANDARD.decode(s).ok()
}

/// Relies on serde_json: whether bytes parse as a JSON document is a
/// function of the bytes alone.
#[verifier::external_body]
pub fn json_decodes(bytes: &[u8]) -> (r: bool)
    ensures
        r == json_ok(bytes@),
{
    serde_json::from_slice::<serde_json::Value>(bytes).is_ok()
}

/// The canonical envelope around bytes that are not JSON: their base64
/// encoding and their original length.
#[derive(Debug, PartialEq, Eq)]
pub struct Envelope {
    pub data: String,
    pub size: usize,
}

/// Wrap bytes in the canonical envelope.
pub fn encode_envelope(bytes: Vec<u8>) -> (r: Envelope)
    ensures
        r.data@ == b64_of(bytes@),
        r.size == bytes@.len(),
{
    let data = b64_encode(bytes.as_slice());
    Envelope { data, size: bytes.len() }
}

/// Unwrap an envelope: decode the base64 text and check the declared size.
/// Any envelope produced by `encode_envelope` comes back as exactly the
/// bytes that went in.
pub fn decode_envelope(env: &Envelope) -> (r: Option<Vec<u8>>)
    ensures
        forall|x: Seq<u8>|
            env.data@ == b64_of(x) && env.size == x.len() ==> (r matches Option::Some(b) && b@
                == x),
        r matches Option::Some(b) ==> b@.len() == env.size,
{
    match b64_decode(env.data.as_str()) {
        Option::Some(bytes) => {
            if bytes.len() == env.size {
                Option::Some(bytes)
            } else {
                Option::None
            }
        },
        Option::None => Option::None,
    }
}

/// Classify raw bytes into a source payload: the bytes themselves when they
/// are a JSON document, the envelope around them otherwise.
pub fn payload_from_bytes(bytes: Vec<u8>) -> (r: SourcePayload)
    ensures
        json_ok(bytes@) ==> (r matches SourcePayload::Json(b) && b@ == bytes@),
        !json_ok(bytes@) ==> (r matches SourcePayload::Envelope(e) && e.data@ == b64_of(
            bytes@,
        ) && e.size == bytes@.len()),
{
    if json_decodes(bytes.as_slice()) {
        SourcePayload::Json(bytes)
    } else {
        SourcePayload::Envelope(encode_envelope(bytes))
    }
}

} // verus!
