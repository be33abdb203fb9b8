//! The hexadecimal text form of byte strings, as a mathematical model.
//!
//! Decoding accepts upper- and lower-case digits in pairs; encoding writes
//! lower-case digits, two per byte.
use vstd::prelude::*;
use vstd::utf8::*;

verus! {

/// The value of one hexadecimal digit, given as the byte of its character.
pub open spec fn hex_digit_value(b: u8) -> Option<u8> {
    if 48 <= b <= 57 {
        Some((b - 48) as u8)
    } else if 97 <= b <= 102 {
        Some((b - 87) as u8)
    } else if 65 <= b <= 70 {
        Some((b - 55) as u8)
    } else {
        None
    }
}

/// An even number of bytes, each of them a hexadecimal digit.
pub open spec fn is_hex_text(text: Seq<u8>) -> bool {
    &&& text.len() % 2 == 0
    &&& forall|i: int| 0 <= i < text.len() ==> (#[trigger] hex_digit_value(text[i])) is Some
}

/// The byte that the `i`-th pair of digits of `text` stands for.
pub open spec fn hex_pair_value(text: Seq<u8>, i: int) -> u8 {
    (hex_digit_value(text[2 * i]).unwrap() * 16 + hex_digit_value(text[2 * i + 1]).unwrap()) as u8
}

/// The bytes that a hexadecimal text stands for, or `None` when it is not one.
pub open spec fn hex_decoded(text: Seq<u8>) -> Option<Seq<u8>> {
    if is_hex_text(text) {
        Some(Seq::new(text.len() / 2, |i: int| hex_pair_value(text, i)))
    } else {
        None
    }
}

/// Why a text was refused as hexadecimal: `hex::FromHexError`, held as
/// plain values.
#[derive(Debug, Clone, Copy, PartialEq, Eq, Structural)]
pub enum HexError {
    /// The byte at `index`, read as the character `c`, is not a digit.
    InvalidHexCharacter { c: char, index: usize },
    OddLength,
    InvalidStringLength,
}

/// Whether `i` is the first position of `text` that holds no digit.
pub open spec fn is_first_non_digit(text: Seq<u8>, i: int) -> bool {
    &&& 0 <= i < text.len()
    &&& hex_digit_value(text[i]) is None
    &&& forall|j: int| 0 <= j < i ==> (#[trigger] hex_digit_value(text[j])) is Some
}

/// The error for a text that is not hexadecimal: odd length first, else the
/// first byte that is no digit.
pub open spec fn hex_decode_error(text: Seq<u8>) -> HexError {
    if text.len() % 2 != 0 {
        HexError::OddLength
    } else {
        let i = choose|i: int| is_first_non_digit(text, i);
        HexError::InvalidHexCharacter { c: text[i] as char, index: i as usize }
    }
}

/// The lower-case digit for a value below sixteen.
pub open spec fn hex_digit_char(n: u8) -> char {
    if n < 10 {
        (48 + n) as char
    } else {
        (87 + n) as char
    }
}

/// The lower-case hexadecimal text of a byte string: two digits per byte,
/// the high half first.
pub open spec fn hex_encoded(bytes: Seq<u8>) -> Seq<char> {
    Seq::new(
        2 * bytes.len(),
        |i: int|
            if i % 2 == 0 {
                hex_digit_char(bytes[i / 2] / 16)
            } else {
                hex_digit_char(bytes[i / 2] % 16)
            },
    )
}

/// The text with `A`-`Z` written in lower case.
pub open spec fn ascii_lowercase(text: Seq<char>) -> Seq<char> {
    Seq::new(
        text.len(),
        |i: int|
            if 'A' <= text[i] <= 'Z' {
                ((text[i] as int) + 32) as char
            } else {
                text[i]
            },
    )
}

/// A text made only of the characters that `hex_encoded` writes, in pairs.
pub open spec fn is_lower_hex(text: Seq<char>) -> bool {
    &&& text.len() % 2 == 0
    &&& forall|i: int|
        0 <= i < text.len() ==> ('0' <= #[trigger] text[i] <= '9' || 'a' <= text[i] <= 'f')
}

proof fn lemma_digit_char(n: u8)
    requires
        n < 16,
    ensures
        '\0' <= hex_digit_char(n) <= '\u{7f}',
        hex_digit_value(hex_digit_char(n) as u8) == Some(n),
        '0' <= hex_digit_char(n) <= '9' || 'a' <= hex_digit_char(n) <= 'f',
{
}

/// The encoded text is plain ASCII, so its UTF-8 bytes are its characters.
pub proof fn lemma_hex_encoded_ascii(bytes: Seq<u8>)
    ensures
        is_ascii_chars(hex_encoded(bytes)),
        is_lower_hex(hex_encoded(bytes)),
        encode_utf8(hex_encoded(bytes)).len() == 2 * bytes.len(),
        forall|i: int|
            0 <= i < 2 * bytes.len() ==> #[trigger] encode_utf8(hex_encoded(bytes))[i]
                == hex_encoded(bytes)[i] as u8,
{
    let t = hex_encoded(bytes);
    assert forall|i: int| 0 <= i < t.len() implies '\0' <= #[trigger] t[i] <= '\u{7f}' && ('0'
        <= t[i] <= '9' || 'a' <= t[i] <= 'f') by {
        lemma_digit_char(bytes[i / 2] / 16);
        lemma_digit_char(bytes[i / 2] % 16);
    }
    is_ascii_chars_encode_utf8(t);
}

/// Decoding the hexadecimal text of a byte string gives the byte string back.
pub proof fn lemma_hex_decode_encoded(bytes: Seq<u8>)
    ensures
        hex_decoded(encode_utf8(hex_encoded(bytes))) == Some(bytes),
{
    let t = hex_encoded(bytes);
    let b = encode_utf8(t);
    lemma_hex_encoded_ascii(bytes);
    assert forall|i: int| 0 <= i < b.len() implies (#[trigger] hex_digit_value(b[i])) is Some by {
        assert(b[i] == t[i] as u8);
        lemma_digit_char(bytes[i / 2] / 16);
        lemma_digit_char(bytes[i / 2] % 16);
    }
    assert(is_hex_text(b));
    let d = hex_decoded(b).unwrap();
    assert forall|i: int| 0 <= i < bytes.len() implies d[i] == bytes[i] by {
        assert(b[2 * i] == t[2 * i] as u8);
        assert(b[2 * i + 1] == t[2 * i + 1] as u8);
        assert((2 * i) / 2 == i);
        assert((2 * i + 1) / 2 == i);
        assert((2 * i) % 2 == 0);
        assert((2 * i + 1) % 2 == 1);
        lemma_digit_char(bytes[i] / 16);
        lemma_digit_char(bytes[i] % 16);
    }
    assert(d =~= bytes);
}

/// A lower-case hexadecimal text is the encoding of what it decodes to.
pub proof fn lemma_hex_encode_decoded(text: Seq<char>)
    requires
        is_lower_hex(text),
    ensures
        hex_decoded(encode_utf8(text)) is Some,
        hex_encoded(hex_decoded(encode_utf8(text)).unwrap()) == text,
{
    assert(is_ascii_chars(text));
    is_ascii_chars_encode_utf8(text);
    let b = encode_utf8(text);
    assert forall|i: int| 0 <= i < b.len() implies (#[trigger] hex_digit_value(b[i])) is Some by {
        assert(b[i] == text[i] as u8);
    }
    let d = hex_decoded(b).unwrap();
    let e = hex_encoded(d);
    assert forall|i: int| 0 <= i < text.len() implies e[i] == text[i] by {
        let k = i / 2;
        assert(b[2 * k] == text[2 * k] as u8);
        assert(b[2 * k + 1] == text[2 * k + 1] as u8);
        let hi = hex_digit_value(b[2 * k]).unwrap();
        let lo = hex_digit_value(b[2 * k + 1]).unwrap();
        assert(d[k] == hi * 16 + lo);
        assert((hi * 16 + lo) / 16 == hi);
        assert((hi * 16 + lo) % 16 == lo);
    }
    assert(e =~= text);
}

/// Any hexadecimal text, in either case, is the encoding of what it
/// decodes to once written in lower case.
pub proof fn lemma_hex_encode_decoded_any_case(text: Seq<char>)
    requires
        hex_decoded(encode_utf8(text)) is Some,
    ensures
        hex_encoded(hex_decoded(encode_utf8(text)).unwrap()) == ascii_lowercase(text),
        is_lower_hex(ascii_lowercase(text)),
        hex_decoded(encode_utf8(ascii_lowercase(text))) == hex_decoded(encode_utf8(text)),
{
    let b = encode_utf8(text);
    assert forall|i: int| 0 <= i < b.len() implies #[trigger] b[i] < 0x80 by {
        assert(hex_digit_value(b[i]) is Some);
    }
    lemma_ascii_bytes_ascii_chars(text);
    is_ascii_chars_encode_utf8(text);
    let low = ascii_lowercase(text);
    assert forall|i: int| 0 <= i < low.len() implies ('0' <= #[trigger] low[i] <= '9' || 'a'
        <= low[i] <= 'f') by {
        assert(b[i] == text[i] as u8);
        assert(hex_digit_value(b[i]) is Some);
    }
    assert(is_lower_hex(low));
    lemma_hex_encode_decoded(low);
    assert(is_ascii_chars(low));
    is_ascii_chars_encode_utf8(low);
    let bl = encode_utf8(low);
    assert forall|i: int| 0 <= i < b.len() implies hex_digit_value(#[trigger] bl[i])
        == hex_digit_value(b[i]) by {
        assert(b[i] == text[i] as u8);
        assert(bl[i] == low[i] as u8);
    }
    assert(hex_decoded(bl) =~~= hex_decoded(b)) by {
        assert(is_hex_text(bl));
        let d1 = hex_decoded(bl).unwrap();
        let d2 = hex_decoded(b).unwrap();
        assert(d1 =~= d2);
    }
}

proof fn lemma_char_as_u32(c: char)
    ensures
        (c as u32) as int == c as int,
{
}

/// A text whose UTF-8 bytes are all below 0x80 is plain ASCII: any other
/// character starts with a byte of 0xC0 or more.
pub proof fn lemma_ascii_bytes_ascii_chars(text: Seq<char>)
    requires
        forall|i: int| 0 <= i < encode_utf8(text).len() ==> #[trigger] encode_utf8(text)[i] < 0x80,
    ensures
        is_ascii_chars(text),
    decreases text.len(),
{
    if text.len() > 0 {
        lemma_char_as_u32(text[0]);
        let c = text[0] as u32;
        let first = encode_scalar(c);
        let rest = text.drop_first();
        assert(encode_utf8(text) == first + encode_utf8(rest));
        char_is_scalar(text[0]);
        assert(encode_utf8(text)[0] == first[0]);
        if !has_width_1_encoding(c) {
            if has_width_2_encoding(c) {
                let z = ((c >> 6) & 0x1F) as u8;
                assert(0xC0u8 | z >= 0x80u8) by (bit_vector);
            } else if has_width_3_encoding(c) {
                let z = ((c >> 12) & 0x0F) as u8;
                assert(0xE0u8 | z >= 0x80u8) by (bit_vector);
            } else {
                let z = ((c >> 18) & 0x7) as u8;
                assert(0xF0u8 | z >= 0x80u8) by (bit_vector);
            }
            assert(first[0] >= 0x80);
            assert(false);
        }
        assert(c <= 0x7f);
        lemma_char_as_u32(text[0]);
        assert('\0' <= text[0] <= '\u{7f}');
        assert forall|j: int| 0 <= j < encode_utf8(rest).len() implies #[trigger] encode_utf8(
            rest,
        )[j] < 0x80 by {
            assert(encode_utf8(rest)[j] == encode_utf8(text)[first.len() + j]);
        }
        lemma_ascii_bytes_ascii_chars(rest);
        assert forall|i: int| 0 <= i < text.len() implies '\0' <= #[trigger] text[i] <= '\u{7f}' by {
            if i > 0 {
                assert(text[i] == rest[i - 1]);
            }
        }
    }
}

} // verus!
