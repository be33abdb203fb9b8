use rocksdb_mcp::encoding::{
    base64_error_message, decode, encode, encoded_len_fits_check, hex_error_message, Base64Error,
    Encoding, EncodingError,
};
use rocksdb_mcp::hex_text::HexError;

#[test]
fn roundtrip_utf8() {
    let bytes = decode("key", "users/42", Encoding::Utf8).unwrap();
    assert_eq!(bytes, b"users/42");
    assert_eq!(encode("value", &bytes, Encoding::Utf8).unwrap(), "users/42");
}

#[test]
fn roundtrip_hex() {
    let bytes = decode("key", "a1b2c3", Encoding::Hex).unwrap();
    assert_eq!(bytes, [0xa1, 0xb2, 0xc3]);
    assert_eq!(encode("value", &bytes, Encoding::Hex).unwrap(), "a1b2c3");
}

#[test]
fn roundtrip_base64() {
    let bytes = decode("key", "obLD", Encoding::Base64).unwrap();
    assert_eq!(bytes, [0xa1, 0xb2, 0xc3]);
    assert_eq!(encode("value", &bytes, Encoding::Base64).unwrap(), "obLD");
}

#[test]
fn utf8_encode_fails_on_non_utf8() {
    let err = encode("value", &[0xff, 0xfe], Encoding::Utf8).unwrap_err();
    assert!(matches!(err, EncodingError::InvalidUtf8 { field: "value" }));
}

#[test]
fn hex_decode_fails_on_odd_length() {
    let err = decode("key", "abc", Encoding::Hex).unwrap_err();
    assert!(matches!(
        err,
        EncodingError::InvalidHex { field: "key", .. }
    ));
}

#[test]
fn encoding_names() {
    assert_eq!(Encoding::Utf8.as_str(), "utf8");
    assert_eq!(Encoding::Hex.as_str(), "hex");
    assert_eq!(Encoding::Base64.as_str(), "base64");
    assert_eq!(Encoding::default(), Encoding::Utf8);
}

#[test]
fn hex_decode_accepts_upper_case() {
    assert_eq!(decode("key", "A1B2C3", Encoding::Hex).unwrap(), [0xa1, 0xb2, 0xc3]);
    assert_eq!(decode("key", "", Encoding::Hex).unwrap(), Vec::<u8>::new());
}

#[test]
fn hex_decode_refuses_non_digits() {
    let err = decode("key", "zz", Encoding::Hex).unwrap_err();
    assert!(matches!(err, EncodingError::InvalidHex { field: "key", .. }));
}

#[test]
fn hex_encode_writes_lower_case_pairs() {
    assert_eq!(encode("value", &[0x00, 0x0f, 0xff, 0x10], Encoding::Hex).unwrap(), "000fff10");
    assert_eq!(encode("value", &[], Encoding::Hex).unwrap(), "");
}

#[test]
fn base64_pads_short_groups() {
    assert_eq!(encode("value", b"hello", Encoding::Base64).unwrap(), "aGVsbG8=");
    assert_eq!(encode("value", b"hell", Encoding::Base64).unwrap(), "aGVsbA==");
    assert_eq!(decode("key", "aGVsbG8=", Encoding::Base64).unwrap(), b"hello");
}

#[test]
fn base64_refuses_bad_text() {
    for text in ["aGVsbG8", "aGVsbA=", "a!==", "QR=="] {
        let err = decode("key", text, Encoding::Base64).unwrap_err();
        assert!(matches!(err, EncodingError::InvalidBase64 { field: "key", .. }));
    }
}

#[test]
fn utf8_keeps_multibyte_text() {
    let bytes = decode("key", "naïve/ключ", Encoding::Utf8).unwrap();
    assert_eq!(bytes, "naïve/ключ".as_bytes());
    assert_eq!(encode("value", &bytes, Encoding::Utf8).unwrap(), "naïve/ключ");
}

#[test]
fn roundtrip_every_encoding_on_binary_bytes() {
    let bytes: Vec<u8> = (0u8..=255).collect();
    for enc in [Encoding::Hex, Encoding::Base64] {
        let text = encode("value", &bytes, enc).unwrap();
        assert_eq!(decode("key", &text, enc).unwrap(), bytes);
    }
}

#[test]
fn error_messages() {
    let err = encode("value", &[0xff], Encoding::Utf8).unwrap_err();
    assert_eq!(
        err.message(),
        "field 'value' is not valid UTF-8; retry with value_encoding=\"base64\""
    );
    let err = decode("key", "abc", Encoding::Hex).unwrap_err();
    assert_eq!(err.message(), "field 'key' is not valid hex: Odd number of digits");
    let err = decode("key", "a1zz", Encoding::Hex).unwrap_err();
    assert!(matches!(
        err,
        EncodingError::InvalidHex { field: "key", source: HexError::InvalidHexCharacter { c: 'z', index: 2 } }
    ));
    assert_eq!(err.message(), "field 'key' is not valid hex: Invalid character 'z' at position 2");
    let err = decode("key", "a!==", Encoding::Base64).unwrap_err();
    assert!(matches!(
        err,
        EncodingError::InvalidBase64 { field: "key", source: Base64Error::InvalidByte(1, 33) }
    ));
    assert_eq!(err.message(), "field 'key' is not valid base64: Invalid symbol 33, offset 1.");
    assert_eq!(base64_error_message(&Base64Error::InvalidPadding), "Invalid padding");
    assert_eq!(base64_error_message(&Base64Error::InvalidLength(5)), "Invalid input length: 5");
    assert_eq!(
        base64_error_message(&Base64Error::InvalidLastSymbol(2, 82)),
        "Invalid last symbol 82, offset 2."
    );
    assert_eq!(hex_error_message(&HexError::InvalidStringLength), "Invalid string length");
}

#[test]
fn hex_round_trip_lowers_the_case() {
    let bytes = decode("key", "A1b2C3", Encoding::Hex).unwrap();
    assert_eq!(encode("value", &bytes, Encoding::Hex).unwrap(), "a1b2c3");
}

#[test]
fn encoded_size_limits() {
    assert!(encoded_len_fits_check(usize::MAX, Encoding::Utf8));
    assert!(encoded_len_fits_check(3, Encoding::Hex));
    assert!(encoded_len_fits_check(3, Encoding::Base64));
    assert!(!encoded_len_fits_check(usize::MAX, Encoding::Hex));
    assert!(!encoded_len_fits_check(usize::MAX, Encoding::Base64));
    let half = (isize::MAX as usize) / 2;
    assert!(encoded_len_fits_check(half, Encoding::Hex));
    assert!(!encoded_len_fits_check(half + 1, Encoding::Hex));
}
