//! The three text forms in which keys are given and values are returned.
use base64::Engine;
use vstd::prelude::*;
use vstd::utf8::*;
use crate::base64_text::{
    base64_decoded, base64_encoded, base64_encoded_len, is_base64_of,
    lemma_base64_decode_encoded, lemma_base64_decoded_is_base64, lemma_base64_encode_decoded,
    lemma_base64_decodes_standard_text, lemma_base64_encoded_is_base64,
};
use crate::hex_text::{
    ascii_lowercase, hex_decode_error, hex_decoded, hex_digit_value, hex_encoded,
    lemma_hex_decode_encoded, lemma_hex_encode_decoded_any_case, lemma_hex_encoded_ascii, HexError,
};
use crate::text::{decimal, push_decimal};

verus! {

/// How a key is read from text, or how a value is written as text.
#[derive(Debug, Clone, Copy, PartialEq, Eq, Structural)]
pub enum Encoding {
    Utf8,
    Hex,
    Base64,
}

impl Default for Encoding {
    /// Text is taken as UTF-8 unless the caller says otherwise.
    fn default() -> (r: Self)
        ensures
            r == Encoding::Utf8,
    {
        Encoding::Utf8
    }
}

/// The lower-case name by which callers choose an encoding.
pub open spec fn encoding_name(enc: Encoding) -> Seq<char> {
    match enc {
        Encoding::Utf8 => "utf8"@,
        Encoding::Hex => "hex"@,
        Encoding::Base64 => "base64"@,
    }
}

impl Encoding {
    pub fn as_str(self) -> (r: &'static str)
        ensures
            r@ == encoding_name(self),
    {
        match self {
            Encoding::Utf8 => "utf8",
            Encoding::Hex => "hex",
            Encoding::Base64 => "base64",
        }
    }
}

/// Why a text was refused as base64: `base64::DecodeError`, held as plain
/// values (offsets, lengths and the offending byte).
#[derive(Debug, Clone, Copy, PartialEq, Eq, Structural)]
pub enum Base64Error {
    InvalidByte(usize, u8),
    InvalidLength(usize),
    InvalidLastSymbol(usize, u8),
    InvalidPadding,
}

/// Which `base64::DecodeError` the `STANDARD` engine reports for a text it
/// refuses.
pub uninterp spec fn base64_decode_error(text: Seq<char>) -> Base64Error;

/// What `format!("{:?}", c)` writes for a character.
pub uninterp spec fn char_debug_text(c: char) -> Seq<char>;

/// Why a text could not be turned into bytes, or bytes into a text.
/// `field` names the argument at fault (`"key"` or `"value"`).
#[derive(Debug)]
pub enum EncodingError {
    InvalidUtf8 { field: &'static str },
    InvalidHex { field: &'static str, source: HexError },
    InvalidBase64 { field: &'static str, source: Base64Error },
}

/// The bytes that `text` stands for in the encoding `enc`, or `None` when
/// it does not stand for any.
pub open spec fn decoded(text: Seq<char>, enc: Encoding) -> Option<Seq<u8>> {
    match enc {
        Encoding::Utf8 => Some(encode_utf8(text)),
        Encoding::Hex => hex_decoded(encode_utf8(text)),
        Encoding::Base64 => base64_decoded(text),
    }
}

/// The text that writes `bytes` in the encoding `enc`, or `None` when the
/// bytes cannot be written so (only UTF-8 can refuse).
pub open spec fn encoded(bytes: Seq<u8>, enc: Encoding) -> Option<Seq<char>> {
    match enc {
        Encoding::Utf8 => if valid_utf8(bytes) {
            Some(decode_utf8(bytes))
        } else {
            None
        },
        Encoding::Hex => Some(hex_encoded(bytes)),
        Encoding::Base64 => Some(base64_encoded(bytes)),
    }
}

/// The form in which `enc` writes a text it accepts: hex digits in lower
/// case; the other encodings write exactly what they accept.
pub open spec fn canonical(text: Seq<char>, enc: Encoding) -> Seq<char> {
    match enc {
        Encoding::Hex => ascii_lowercase(text),
        _ => text,
    }
}

/// The text that encoding `n` bytes produces fits in memory.
pub open spec fn encoded_len_fits(n: nat, enc: Encoding) -> bool {
    match enc {
        Encoding::Utf8 => true,
        Encoding::Hex => 2 * n <= isize::MAX,
        Encoding::Base64 => base64_encoded_len(n) <= isize::MAX,
    }
}

/// The text of hex's error, as hex writes it.
pub open spec fn hex_error_text(e: HexError) -> Seq<char> {
    match e {
        HexError::InvalidHexCharacter { c, index } => "Invalid character "@ + char_debug_text(c)
            + " at position "@ + decimal(index as nat),
        HexError::OddLength => "Odd number of digits"@,
        HexError::InvalidStringLength => "Invalid string length"@,
    }
}

/// The text of base64's error, as base64 writes it.
pub open spec fn base64_error_text(e: Base64Error) -> Seq<char> {
    match e {
        Base64Error::InvalidByte(index, byte) => "Invalid symbol "@ + decimal(byte as nat)
            + ", offset "@ + decimal(index as nat) + "."@,
        Base64Error::InvalidLength(len) => "Invalid input length: "@ + decimal(len as nat),
        Base64Error::InvalidLastSymbol(index, byte) => "Invalid last symbol "@ + decimal(
            byte as nat,
        ) + ", offset "@ + decimal(index as nat) + "."@,
        Base64Error::InvalidPadding => "Invalid padding"@,
    }
}

/// The text of the error for bytes that are not UTF-8 in `field`.
pub open spec fn utf8_error_text(field: Seq<char>) -> Seq<char> {
    "field '"@ + field + "' is not valid UTF-8; retry with "@ + field + "_encoding=\"base64\""@
}

/// The text of an encoding error, as the caller sees it.
pub open spec fn encoding_error_text(e: EncodingError) -> Seq<char> {
    match e {
        EncodingError::InvalidUtf8 { field } => utf8_error_text(field@),
        EncodingError::InvalidHex { field, source } => "field '"@ + field@
            + "' is not valid hex: "@ + hex_error_text(source),
        EncodingError::InvalidBase64 { field, source } => "field '"@ + field@
            + "' is not valid base64: "@ + base64_error_text(source),
    }
}

/// The error that decoding `text` in `enc` reports for `field`, where it
/// fails.
pub open spec fn decode_error(field: &'static str, text: Seq<char>, enc: Encoding) -> EncodingError {
    match enc {
        Encoding::Hex => EncodingError::InvalidHex {
            field,
            source: hex_decode_error(encode_utf8(text)),
        },
        _ => EncodingError::InvalidBase64 { field, source: base64_decode_error(text) },
    }
}

/// Whether encoding `len` bytes as `enc` stays within memory: the test to
/// make before calling `encode` on bytes of unknown size.
pub fn encoded_len_fits_check(len: usize, enc: Encoding) -> (r: bool)
    ensures
        r == encoded_len_fits(len as nat, enc),
{
    let n = len as u128;
    let limit = isize::MAX as u128;
    match enc {
        Encoding::Utf8 => true,
        Encoding::Hex => 2 * n <= limit,
        Encoding::Base64 => {
            let padded: u128 = if n % 3 == 0 {
                0
            } else {
                4
            };
            (n / 3) * 4 + padded <= limit
        },
    }
}

/// `hex::decode`: two digits per byte, upper or lower case. An odd length
/// is refused first; otherwise the first byte that is no digit is reported.
/// `hex::FromHexError` is carried over variant by variant.
#[verifier::external_body]
fn hex_decode(text: &[u8]) -> (r: Result<Vec<u8>, HexError>)
    ensures
        r is Ok <==> hex_decoded(text@) is Some,
        r matches Ok(v) ==> hex_decoded(text@) == Some(v@),
        r matches Err(e) ==> e == hex_decode_error(text@),
{
    match hex::decode(text) {
        Ok(v) => Ok(v),
        Err(hex::FromHexError::InvalidHexCharacter { c, index }) => Err(
            HexError::InvalidHexCharacter { c, index },
        ),
        Err(hex::FromHexError::OddLength) => Err(HexError::OddLength),
        Err(hex::FromHexError::InvalidStringLength) => Err(HexError::InvalidStringLength),
    }
}

/// `hex::encode`: the lower-case hexadecimal text of the bytes. It panics
/// when the text would not fit in memory, so such input is left out.
#[verifier::external_body]
fn hex_encode(bytes: &[u8]) -> (r: String)
    requires
        2 * bytes@.len() <= isize::MAX,
    ensures
        r@ == hex_encoded(bytes@),
{
    hex::encode(bytes)
}

/// `base64::Engine::decode` on the `STANDARD` engine (standard alphabet,
/// canonical padding required, no stray trailing bits): it accepts exactly
/// the texts that the same engine writes, and gives back the bytes they
/// encode. Which `base64::DecodeError` a refused text gets is named, and
/// carried over variant by variant.
#[verifier::external_body]
fn base64_decode(text: &str) -> (r: Result<Vec<u8>, Base64Error>)
    ensures
        r is Ok <==> base64_decoded(text@) is Some,
        r matches Ok(v) ==> base64_decoded(text@) == Some(v@),
        r matches Err(e) ==> e == base64_decode_error(text@),
{
    match base64::engine::general_purpose::STANDARD.decode(text) {
        Ok(v) => Ok(v),
        Err(base64::DecodeError::InvalidByte(index, byte)) => Err(
            Base64Error::InvalidByte(index, byte),
        ),
        Err(base64::DecodeError::InvalidLength(len)) => Err(Base64Error::InvalidLength(len)),
        Err(base64::DecodeError::InvalidLastSymbol(index, byte)) => Err(
            Base64Error::InvalidLastSymbol(index, byte),
        ),
        Err(base64::DecodeError::InvalidPadding) => Err(Base64Error::InvalidPadding),
    }
}

/// `base64::Engine::encode` on the `STANDARD` engine: the padded text. It
/// panics when the output size overflows, so such input is left out.
#[verifier::external_body]
fn base64_encode(bytes: &[u8]) -> (r: String)
    requires
        base64_encoded_len(bytes@.len()) <= isize::MAX,
    ensures
        r@ == base64_encoded(bytes@),
{
    base64::engine::general_purpose::STANDARD.encode(bytes)
}

/// `std::str::from_utf8`: the text that the bytes encode, when they are
/// valid UTF-8.
#[verifier::external_body]
fn utf8_str(bytes: &[u8]) -> (r: Option<&str>)
    ensures
        r is Some <==> valid_utf8(bytes@),
        r matches Some(s) ==> s@ == decode_utf8(bytes@),
{
    std::str::from_utf8(bytes).ok()
}

/// The `Debug` text of a character, from std's formatting.
#[verifier::external_body]
fn char_debug(c: char) -> (r: String)
    ensures
        r@ == char_debug_text(c),
{
    format!("{:?}", c)
}

/// Writes hex's error text.
pub fn hex_error_message(e: &HexError) -> (m: String)
    ensures
        m@ == hex_error_text(*e),
{
    match e {
        HexError::InvalidHexCharacter { c, index } => {
            let mut m = String::from_str("Invalid character ");
            let shown = char_debug(*c);
            m.append(shown.as_str());
            m.append(" at position ");
            push_decimal(&mut m, *index as u64);
            m
        },
        HexError::OddLength => String::from_str("Odd number of digits"),
        HexError::InvalidStringLength => String::from_str("Invalid string length"),
    }
}

/// Writes base64's error text.
pub fn base64_error_message(e: &Base64Error) -> (m: String)
    ensures
        m@ == base64_error_text(*e),
{
    match e {
        Base64Error::InvalidByte(index, byte) => {
            let mut m = String::from_str("Invalid symbol ");
            push_decimal(&mut m, *byte as u64);
            m.append(", offset ");
            push_decimal(&mut m, *index as u64);
            m.append(".");
            m
        },
        Base64Error::InvalidLength(len) => {
            let mut m = String::from_str("Invalid input length: ");
            push_decimal(&mut m, *len as u64);
            m
        },
        Base64Error::InvalidLastSymbol(index, byte) => {
            let mut m = String::from_str("Invalid last symbol ");
            push_decimal(&mut m, *byte as u64);
            m.append(", offset ");
            push_decimal(&mut m, *index as u64);
            m.append(".");
            m
        },
        Base64Error::InvalidPadding => String::from_str("Invalid padding"),
    }
}

impl EncodingError {
    /// The text of the error, as the caller sees it.
    pub fn message(&self) -> (m: String)
        ensures
            m@ == encoding_error_text(*self),
    {
        match self {
            EncodingError::InvalidUtf8 { field } => {
                let mut m = String::from_str("field '");
                m.append(field);
                m.append("' is not valid UTF-8; retry with ");
                m.append(field);
                m.append("_encoding=\"base64\"");
                m
            },
            EncodingError::InvalidHex { field, source } => {
                let mut m = String::from_str("field '");
                m.append(field);
                m.append("' is not valid hex: ");
                let t = hex_error_message(source);
                m.append(t.as_str());
                m
            },
            EncodingError::InvalidBase64 { field, source } => {
                let mut m = String::from_str("field '");
                m.append(field);
                m.append("' is not valid base64: ");
                let t = base64_error_message(source);
                m.append(t.as_str());
                m
            },
        }
    }
}

/// Turns the text `s` into bytes according to `enc`. UTF-8 text gives its
/// bytes and never fails; hex and base64 fail exactly on the texts that are
/// not in that form, with that form's error naming `field`. Encoding the
/// bytes again gives the text in the form that encoding writes.
pub fn decode(field: &'static str, s: &str, enc: Encoding) -> (r: Result<Vec<u8>, EncodingError>)
    ensures
        r is Ok <==> decoded(s@, enc) is Some,
        r matches Ok(v) ==> decoded(s@, enc) == Some(v@),
        r matches Err(e) ==> e == decode_error(field, s@, enc),
        r matches Ok(v) ==> encoded(v@, enc) == Some(canonical(s@, enc)),
{
    match enc {
        Encoding::Utf8 => {
            let v = vstd::slice::slice_to_vec(s.as_bytes());
            proof {
                lemma_decode_then_encode(s@, enc);
            }
            Ok(v)
        },
        Encoding::Hex => {
            let r = hex_decode(s.as_bytes());
            proof {
                lemma_decode_then_encode(s@, enc);
            }
            match r {
                Ok(v) => Ok(v),
                Err(source) => Err(EncodingError::InvalidHex { field, source }),
            }
        },
        Encoding::Base64 => {
            proof {
                lemma_decode_then_encode(s@, enc);
            }
            match base64_decode(s) {
                Ok(v) => Ok(v),
                Err(source) => Err(EncodingError::InvalidBase64 { field, source }),
            }
        },
    }
}

/// Writes `bytes` as text according to `enc`. Only UTF-8 can fail, exactly
/// when the bytes are not valid UTF-8, with `InvalidUtf8` naming `field`.
/// Whatever text comes out decodes, in the same encoding, to `bytes`.
pub fn encode(field: &'static str, bytes: &[u8], enc: Encoding) -> (r: Result<String, EncodingError>)
    requires
        encoded_len_fits(bytes@.len(), enc),
    ensures
        r is Ok <==> encoded(bytes@, enc) is Some,
        r matches Ok(t) ==> encoded(bytes@, enc) == Some(t@),
        r matches Ok(t) ==> decoded(t@, enc) == Some(bytes@),
        r matches Err(e) ==> e == (EncodingError::InvalidUtf8 { field }),
{
    proof {
        lemma_encode_then_decode(bytes@, enc);
    }
    match enc {
        Encoding::Utf8 => match utf8_str(bytes) {
            Some(s) => Ok(s.to_owned()),
            None => Err(EncodingError::InvalidUtf8 { field }),
        },
        Encoding::Hex => Ok(hex_encode(bytes)),
        Encoding::Base64 => Ok(base64_encode(bytes)),
    }
}

/// Encoding then decoding in the same encoding gives the bytes back.
pub proof fn lemma_encode_then_decode(bytes: Seq<u8>, enc: Encoding)
    ensures
        encoded(bytes, enc) matches Some(t) ==> decoded(t, enc) == Some(bytes),
{
    match enc {
        Encoding::Utf8 => {
            if valid_utf8(bytes) {
                decode_utf8_encode_utf8(bytes);
            }
        },
        Encoding::Hex => {
            lemma_hex_decode_encoded(bytes);
        },
        Encoding::Base64 => {
            lemma_base64_decode_encoded(bytes);
        },
    }
}

/// Decoding then encoding in the same encoding gives the text back, in the
/// form that encoding writes (hex digits in lower case).
pub proof fn lemma_decode_then_encode(text: Seq<char>, enc: Encoding)
    ensures
        decoded(text, enc) matches Some(b) ==> encoded(b, enc) == Some(canonical(text, enc)),
{
    match enc {
        Encoding::Utf8 => {
            encode_utf8_valid_utf8(text);
            encode_utf8_decode_utf8(text);
        },
        Encoding::Hex => {
            if hex_decoded(encode_utf8(text)) is Some {
                lemma_hex_encode_decoded_any_case(text);
            }
        },
        Encoding::Base64 => {
            lemma_base64_encode_decoded(text);
        },
    }
}

/// Hex decoding, stated byte by byte: a text is accepted exactly when its
/// bytes are an even number of hex digits (`0`-`9`, `a`-`f`, `A`-`F`), and
/// then byte `i` of the result is sixteen times the value of digit `2i` plus
/// the value of digit `2i + 1`, in order, for every length.
pub proof fn lemma_hex_decode_law(text: Seq<char>)
    ensures
        decoded(text, Encoding::Hex) is Some <==> (encode_utf8(text).len() % 2 == 0 && forall|
            j: int,
        |
            0 <= j < encode_utf8(text).len() ==> is_hex_digit_byte(#[trigger] encode_utf8(text)[j])),
        decoded(text, Encoding::Hex) matches Some(b) ==> {
            &&& encode_utf8(text).len() == 2 * b.len()
            &&& forall|i: int|
                0 <= i < b.len() ==> #[trigger] b[i] as int == 16 * digit_number(
                    encode_utf8(text)[2 * i],
                ) + digit_number(encode_utf8(text)[2 * i + 1])
        },
{
    let t = encode_utf8(text);
    assert forall|j: int| 0 <= j < t.len() implies (is_hex_digit_byte(#[trigger] t[j])
        <==> hex_digit_value(t[j]) is Some) && (is_hex_digit_byte(t[j]) ==> hex_digit_value(
        t[j]) == Some(digit_number(t[j]) as u8)) by {}
    if decoded(text, Encoding::Hex) is Some {
        let b = decoded(text, Encoding::Hex).unwrap();
        assert forall|i: int| 0 <= i < b.len() implies #[trigger] b[i] as int == 16
            * digit_number(t[2 * i]) + digit_number(t[2 * i + 1]) by {
            assert(is_hex_digit_byte(t[2 * i]));
            assert(is_hex_digit_byte(t[2 * i + 1]));
        }
    }
}

/// Hex encoding, stated character by character: two characters per byte,
/// the digits `0`-`9`, `a`-`f` of the high then the low half of byte `i` at
/// positions `2i` and `2i + 1`, in order, for every length.
pub proof fn lemma_hex_encode_law(bytes: Seq<u8>)
    ensures
        encoded(bytes, Encoding::Hex) matches Some(t) ==> {
            &&& t.len() == 2 * bytes.len()
            &&& forall|k: int|
                0 <= k < t.len() ==> ('0' <= #[trigger] t[k] <= '9' || 'a' <= t[k] <= 'f')
            &&& forall|i: int|
                0 <= i < bytes.len() ==> digit_number(#[trigger] t[2 * i] as u8) == bytes[i] / 16
                    && digit_number(t[2 * i + 1] as u8) == bytes[i] % 16
        },
{
    let t = hex_encoded(bytes);
    assert forall|i: int| 0 <= i < bytes.len() implies digit_number(#[trigger] t[2 * i] as u8)
        == bytes[i] / 16 && digit_number(t[2 * i + 1] as u8) == bytes[i] % 16 by {
        assert((2 * i) / 2 == i && (2 * i) % 2 == 0);
        assert((2 * i + 1) / 2 == i && (2 * i + 1) % 2 == 1);
    }
    lemma_hex_encoded_ascii(bytes);
}

/// Base64 encoding and decoding, stated against RFC 4648 group by group:
/// the text an encode gives is the standard padded base64 of the bytes in
/// order; a text is decoded exactly when it is the standard base64 of some
/// bytes, and then to those bytes, for every length.
pub proof fn lemma_base64_law(bytes: Seq<u8>, text: Seq<char>)
    ensures
        encoded(bytes, Encoding::Base64) matches Some(t) ==> is_base64_of(bytes, t),
        decoded(text, Encoding::Base64) matches Some(b) ==> is_base64_of(b, text),
        is_base64_of(bytes, text) ==> decoded(text, Encoding::Base64) == Some(bytes),
{
    lemma_base64_encoded_is_base64(bytes);
    lemma_base64_decoded_is_base64(text);
    if is_base64_of(bytes, text) {
        lemma_base64_decodes_standard_text(bytes, text);
    }
}

/// A byte that is a hex digit in either case.
pub open spec fn is_hex_digit_byte(b: u8) -> bool {
    (48 <= b <= 57) || (97 <= b <= 102) || (65 <= b <= 70)
}

/// The value of a hex digit byte.
pub open spec fn digit_number(b: u8) -> int {
    if 48 <= b <= 57 {
        b - 48
    } else if 97 <= b <= 102 {
        b - 87
    } else {
        b - 55
    }
}

/// A text has at least as many UTF-8 bytes as characters.
pub proof fn lemma_utf8_len_at_least_chars(text: Seq<char>)
    ensures
        text.len() <= encode_utf8(text).len(),
    decreases text.len(),
{
    if text.len() > 0 {
        lemma_utf8_len_at_least_chars(text.drop_first());
    }
}

/// Whatever a text that fits in memory decodes to can be encoded again:
/// with `decode`'s contract, encoding the bytes then gives the text back in
/// canonical form.
pub proof fn lemma_decoded_fits(text: Seq<char>, enc: Encoding)
    requires
        encode_utf8(text).len() <= isize::MAX,
    ensures
        decoded(text, enc) matches Some(b) ==> encoded_len_fits(b.len(), enc),
{
    match enc {
        Encoding::Utf8 => {},
        Encoding::Hex => {},
        Encoding::Base64 => {
            if decoded(text, enc) is Some {
                lemma_base64_encode_decoded(text);
                lemma_utf8_len_at_least_chars(text);
            }
        },
    }
}

} // verus!
