//! Transport decoding of ingestion payloads.
//!
//! File content arrives over the event bus as base64 text. Decoding it to a
//! document is a two-step check: the text must be valid base64, and the
//! decoded bytes must be valid UTF-8. Either failure is terminal for the
//! event, since a malformed payload will not correct itself on redelivery.

use base64::Engine;
use vstd::prelude::*;
use vstd::utf8::{decode_utf8, valid_utf8};

verus! {

/// What base64's standard-alphabet decoder yields on the given text: the
/// decoded bytes, or nothing when the text is not valid padded base64.
pub uninterp spec fn base64_decode_of(s: Seq<char>) -> Option<Seq<u8>>;

/// Relies on base64's `Engine::decode` with the standard engine: the result is
/// a function of the input text alone, and decoding fails exactly on text that
/// is not valid padded standard-alphabet base64.
#[verifier::external_body]
fn base64_decode(s: &str) -> (r: Option<Vec<u8>>)
    ensures
        r is Some <==> base64_decode_of(s@) is Some,
        r is Some ==> r->0@ == base64_decode_of(s@)->0,
{
    base64::engine::general_purpose::STANDARD.decode(s).ok()
}

/// Relies on `String::from_utf8`: it succeeds exactly on valid UTF-8 input,
/// returning the string those bytes encode.
#[verifier::external_body]
fn utf8_to_string(bytes: Vec<u8>) -> (r: Option<String>)
    ensures
        r is Some <==> valid_utf8(bytes@),
        r is Some ==> r->0@ == decode_utf8(bytes@),
{
    String::from_utf8(bytes).ok()
}

/// Why a transport-encoded payload could not be decoded.
#[derive(Clone, Copy, PartialEq, Eq, Structural, Debug)]
pub enum DecodeError {
    /// The payload text is not valid base64.
    InvalidBase64,
    /// The decoded bytes are not valid UTF-8.
    InvalidUtf8,
}

/// The description `DecodeError::message` returns for each failure.
pub open spec fn decode_error_text(e: DecodeError) -> Seq<char> {
    match e {
        DecodeError::InvalidBase64 => "failed to decode base64 content"@,
        DecodeError::InvalidUtf8 => "failed to convert decoded bytes to UTF-8"@,
    }
}

impl DecodeError {
    /// A human-readable description of the failure.
    pub fn message(&self) -> (r: String)
        ensures
            r@ == decode_error_text(*self),
    {
        match self {
            DecodeError::InvalidBase64 => String::from_str("failed to decode base64 content"),
            DecodeError::InvalidUtf8 => String::from_str(
                "failed to convert decoded bytes to UTF-8",
            ),
        }
    }
}

/// What decoding a transport-encoded payload yields: the document text, or
/// the first failure of the base64 and UTF-8 checks.
pub open spec fn decoded_content_of(s: Seq<char>) -> Result<Seq<char>, DecodeError> {
    match base64_decode_of(s) {
        Option::None => Result::Err(DecodeError::InvalidBase64),
        Option::Some(b) => if valid_utf8(b) {
            Result::Ok(decode_utf8(b))
        } else {
            Result::Err(DecodeError::InvalidUtf8)
        },
    }
}

/// Decode transport-encoded file content to document text.
///
/// Returns the text exactly when the payload is valid base64 whose decoded
/// bytes are valid UTF-8, and otherwise says which check failed.
pub fn decode_content(s: &str) -> (r: Result<String, DecodeError>)
    ensures
        r is Ok <==> decoded_content_of(s@) is Ok,
        r is Ok ==> r->Ok_0@ == decoded_content_of(s@)->Ok_0,
        r is Err ==> r->Err_0 == decoded_content_of(s@)->Err_0,
{
    match base64_decode(s) {
        Option::None => Result::Err(DecodeError::InvalidBase64),
        Option::Some(bytes) => match utf8_to_string(bytes) {
            Option::None => Result::Err(DecodeError::InvalidUtf8),
            Option::Some(text) => Result::Ok(text),
        },
    }
}

} // verus!
