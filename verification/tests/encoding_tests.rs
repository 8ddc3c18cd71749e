use base64::Engine;
use rag_core::encoding::{decode_content, DecodeError};

#[test]
fn decodes_valid_base64_text() {
    let encoded = base64::engine::general_purpose::STANDARD.encode("hello world");
    assert_eq!(encoded, "aGVsbG8gd29ybGQ=");
    let decoded = decode_content(&encoded).unwrap();
    assert_eq!(decoded, "hello world");
}

#[test]
fn decodes_empty_content() {
    assert_eq!(decode_content("").unwrap(), "");
}

#[test]
fn rejects_invalid_base64() {
    assert_eq!(decode_content("not base64!!"), Err(DecodeError::InvalidBase64));
    assert_eq!(decode_content("aGVsbG8"), Err(DecodeError::InvalidBase64));
}

#[test]
fn rejects_non_utf8_bytes() {
    // 0xFF is never valid UTF-8.
    let encoded = base64::engine::general_purpose::STANDARD.encode([0xFFu8]);
    assert_eq!(decode_content(&encoded), Err(DecodeError::InvalidUtf8));
}

#[test]
fn decode_error_messages_are_exact() {
    assert_eq!(
        DecodeError::InvalidBase64.message(),
        "failed to decode base64 content"
    );
    assert_eq!(
        DecodeError::InvalidUtf8.message(),
        "failed to convert decoded bytes to UTF-8"
    );
}

#[test]
fn decodes_multibyte_utf8() {
    let encoded = base64::engine::general_purpose::STANDARD.encode("héllo ☃");
    assert_eq!(decode_content(&encoded).unwrap(), "héllo ☃");
}
