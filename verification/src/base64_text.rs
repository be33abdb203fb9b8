//! The standard base64 text form of byte strings (RFC 4648 alphabet, `=`
//! padding), as a mathematical model.
//!
//! Every three bytes become four characters of six bits each; a last group
//! of one or two bytes is padded with `=` to four characters. A text stands
//! for bytes exactly when it is the encoding of those bytes.
use vstd::prelude::*;

verus! {

/// The character for a six-bit value: `A`-`Z`, `a`-`z`, `0`-`9`, `+`, `/`.
pub open spec fn base64_char(v: int) -> char {
    if v < 26 {
        (65 + v) as char
    } else if v < 52 {
        (71 + v) as char
    } else if v < 62 {
        (v - 4) as char
    } else if v == 62 {
        '+'
    } else {
        '/'
    }
}

/// The `i`-th byte, or zero past the end.
pub open spec fn byte_or_zero(bytes: Seq<u8>, i: int) -> int {
    if i < bytes.len() {
        bytes[i] as int
    } else {
        0
    }
}

/// The `p`-th six-bit value (of four) of group `g`, high bits first.
pub open spec fn sextet(bytes: Seq<u8>, g: int, p: int) -> int {
    let b0 = byte_or_zero(bytes, 3 * g);
    let b1 = byte_or_zero(bytes, 3 * g + 1);
    let b2 = byte_or_zero(bytes, 3 * g + 2);
    if p == 0 {
        b0 / 4
    } else if p == 1 {
        (b0 % 4) * 16 + b1 / 16
    } else if p == 2 {
        (b1 % 16) * 4 + b2 / 64
    } else {
        b2 % 64
    }
}

/// Position `p` of group `g` is padding: the group lacks the byte it needs.
pub open spec fn is_padding(n: int, g: int, p: int) -> bool {
    (p == 2 && 3 * g + 1 >= n) || (p == 3 && 3 * g + 2 >= n)
}

/// The length of the padded base64 text of `n` bytes.
pub open spec fn base64_encoded_len(n: nat) -> nat {
    (n / 3) * 4 + if n % 3 == 0 {
        0nat
    } else {
        4nat
    }
}

/// The padded base64 text of a byte string.
pub open spec fn base64_encoded(bytes: Seq<u8>) -> Seq<char> {
    Seq::new(
        base64_encoded_len(bytes.len()),
        |i: int|
            if is_padding(bytes.len() as int, i / 4, i % 4) {
                '='
            } else {
                base64_char(sextet(bytes, i / 4, i % 4))
            },
    )
}

/// The bytes a text stands for: those whose encoding it is, when there are
/// any (there is at most one such byte string).
pub open spec fn base64_decoded(text: Seq<char>) -> Option<Seq<u8>> {
    if exists|b: Seq<u8>| base64_encoded(b) == text {
        Some(choose|b: Seq<u8>| base64_encoded(b) == text)
    } else {
        None
    }
}

proof fn lemma_char_injective(v: int, w: int)
    requires
        0 <= v < 64,
        0 <= w < 64,
    ensures
        base64_char(v) != '=',
        base64_char(v) == base64_char(w) ==> v == w,
{
}

proof fn lemma_group_injective(x0: int, x1: int, x2: int, y0: int, y1: int, y2: int)
    requires
        0 <= x0 < 256,
        0 <= x1 < 256,
        0 <= x2 < 256,
        0 <= y0 < 256,
        0 <= y1 < 256,
        0 <= y2 < 256,
        x0 / 4 == y0 / 4,
        (x0 % 4) * 16 + x1 / 16 == (y0 % 4) * 16 + y1 / 16,
    ensures
        x0 == y0,
        (x1 % 16) * 4 + x2 / 64 == (y1 % 16) * 4 + y2 / 64 ==> x1 == y1,
        (x1 % 16) * 4 + x2 / 64 == (y1 % 16) * 4 + y2 / 64 && x2 % 64 == y2 % 64 ==> x2 == y2,
{
    assert(x1 / 16 < 16 && y1 / 16 < 16);
    assert(x0 % 4 == y0 % 4);
    assert(x1 / 16 == y1 / 16);
    if (x1 % 16) * 4 + x2 / 64 == (y1 % 16) * 4 + y2 / 64 {
        assert(x2 / 64 < 4 && y2 / 64 < 4);
        assert(x1 % 16 == y1 % 16);
        assert(x2 / 64 == y2 / 64);
    }
}

proof fn lemma_sextet_range(bytes: Seq<u8>, g: int, p: int)
    ensures
        0 <= sextet(bytes, g, p) < 64,
{
}

/// Two byte strings with the same encoding are the same.
pub proof fn lemma_base64_injective(a: Seq<u8>, b: Seq<u8>)
    requires
        base64_encoded(a) == base64_encoded(b),
    ensures
        a == b,
{
    let ea = base64_encoded(a);
    let eb = base64_encoded(b);
    let na = a.len() as int;
    let nb = b.len() as int;
    assert(ea.len() == eb.len());
    if na != nb {
        // Same length of text: same number of groups, so they differ in the
        // last group, whose padding tells its number of bytes.
        let groups = ea.len() / 4;
        assert(groups > 0);
        let g = groups - 1;
        assert(3 * g < na <= 3 * g + 3);
        assert(3 * g < nb <= 3 * g + 3);
        lemma_sextet_range(a, g, 2);
        lemma_sextet_range(a, g, 3);
        lemma_sextet_range(b, g, 2);
        lemma_sextet_range(b, g, 3);
        lemma_char_injective(sextet(a, g, 2), 0);
        lemma_char_injective(sextet(a, g, 3), 0);
        lemma_char_injective(sextet(b, g, 2), 0);
        lemma_char_injective(sextet(b, g, 3), 0);
        assert(ea[4 * g + 2] == eb[4 * g + 2]);
        assert(ea[4 * g + 3] == eb[4 * g + 3]);
        assert((4 * g + 2) / 4 == g && (4 * g + 2) % 4 == 2);
        assert((4 * g + 3) / 4 == g && (4 * g + 3) % 4 == 3);
        assert(false);
    }
    assert forall|k: int| 0 <= k < na implies a[k] == b[k] by {
        let g = k / 3;
        let j = k % 3;
        assert(k == 3 * g + j);
        assert(4 * g + 3 < ea.len());
        assert forall|p: int| 0 <= p < 4 && !is_padding(na, g, p) implies sextet(a, g, p)
            == sextet(b, g, p) by {
            assert((4 * g + p) / 4 == g && (4 * g + p) % 4 == p);
            assert(ea[4 * g + p] == eb[4 * g + p]);
            lemma_sextet_range(a, g, p);
            lemma_sextet_range(b, g, p);
            lemma_char_injective(sextet(a, g, p), sextet(b, g, p));
        }
        assert(sextet(a, g, 0) == sextet(b, g, 0));
        assert(sextet(a, g, 1) == sextet(b, g, 1));
        let x0 = byte_or_zero(a, 3 * g);
        let x1 = byte_or_zero(a, 3 * g + 1);
        let x2 = byte_or_zero(a, 3 * g + 2);
        let y0 = byte_or_zero(b, 3 * g);
        let y1 = byte_or_zero(b, 3 * g + 1);
        let y2 = byte_or_zero(b, 3 * g + 2);
        if j >= 1 {
            assert(sextet(a, g, 2) == sextet(b, g, 2));
        }
        if j == 2 {
            assert(sextet(a, g, 3) == sextet(b, g, 3));
        }
        lemma_group_injective(x0, x1, x2, y0, y1, y2);
    }
    assert(a =~= b);
}

/// Decoding the encoding of a byte string gives the byte string.
pub proof fn lemma_base64_decode_encoded(bytes: Seq<u8>)
    ensures
        base64_decoded(base64_encoded(bytes)) == Some(bytes),
{
    let text = base64_encoded(bytes);
    assert(exists|b: Seq<u8>| base64_encoded(b) == text);
    let c = choose|b: Seq<u8>| base64_encoded(b) == text;
    lemma_base64_injective(c, bytes);
}

/// A text that decodes is the encoding of what it decodes to.
pub proof fn lemma_base64_encode_decoded(text: Seq<char>)
    ensures
        base64_decoded(text) matches Some(b) ==> base64_encoded(b) == text,
{
}

/// The six-bit value of a base64 character: `A`-`Z` are 0-25, `a`-`z`
/// 26-51, `0`-`9` 52-61, `+` 62 and `/` 63; any other character has none.
pub open spec fn base64_index(c: char) -> Option<int> {
    if 'A' <= c <= 'Z' {
        Some(c as int - 65)
    } else if 'a' <= c <= 'z' {
        Some(c as int - 71)
    } else if '0' <= c <= '9' {
        Some(c as int + 4)
    } else if c == '+' {
        Some(62)
    } else if c == '/' {
        Some(63)
    } else {
        None
    }
}

/// Group `g` of `text` (characters `4g` to `4g + 3`) writes bytes `3g` to
/// `3g + 2` of `bytes`: each byte is the bits of the characters' values read
/// in order (eight bits of the six-bit values, high bits first). A group
/// holding one byte ends in `==`, one holding two ends in `=`, and the bits
/// past the last byte are zero.
pub open spec fn group_writes(bytes: Seq<u8>, text: Seq<char>, g: int) -> bool {
    let rest = bytes.len() - 3 * g;
    let v0 = base64_index(text[4 * g]);
    let v1 = base64_index(text[4 * g + 1]);
    let v2 = base64_index(text[4 * g + 2]);
    let v3 = base64_index(text[4 * g + 3]);
    &&& v0 is Some && v1 is Some
    &&& bytes[3 * g] as int == v0.unwrap() * 4 + v1.unwrap() / 16
    &&& if rest == 1 {
        text[4 * g + 2] == '=' && text[4 * g + 3] == '=' && v1.unwrap() % 16 == 0
    } else {
        &&& v2 is Some
        &&& bytes[3 * g + 1] as int == (v1.unwrap() % 16) * 16 + v2.unwrap() / 4
        &&& if rest == 2 {
            text[4 * g + 3] == '=' && v2.unwrap() % 4 == 0
        } else {
            v3 is Some && bytes[3 * g + 2] as int == (v2.unwrap() % 4) * 64 + v3.unwrap()
        }
    }
}

/// `text` is the standard padded base64 of `bytes`, stated group by group:
/// four characters for every three bytes or fewer, in order.
pub open spec fn is_base64_of(bytes: Seq<u8>, text: Seq<char>) -> bool {
    &&& text.len() == 4 * ((bytes.len() + 2) / 3)
    &&& forall|g: int| 0 <= g < (bytes.len() + 2) / 3 ==> #[trigger] group_writes(bytes, text, g)
}

proof fn lemma_index_of_char(v: int)
    requires
        0 <= v < 64,
    ensures
        base64_index(base64_char(v)) == Some(v),
{
}

/// The model's encoding of a byte string is its standard base64 text.
pub proof fn lemma_base64_encoded_is_base64(bytes: Seq<u8>)
    ensures
        is_base64_of(bytes, base64_encoded(bytes)),
{
    let n = bytes.len() as int;
    let t = base64_encoded(bytes);
    assert(t.len() == 4 * ((n + 2) / 3));
    assert forall|g: int| 0 <= g < (n + 2) / 3 implies #[trigger] group_writes(bytes, t, g) by {
        assert((4 * g) / 4 == g && (4 * g) % 4 == 0);
        assert((4 * g + 1) / 4 == g && (4 * g + 1) % 4 == 1);
        assert((4 * g + 2) / 4 == g && (4 * g + 2) % 4 == 2);
        assert((4 * g + 3) / 4 == g && (4 * g + 3) % 4 == 3);
        assert(4 * g + 3 < t.len());
        lemma_sextet_range(bytes, g, 0);
        lemma_sextet_range(bytes, g, 1);
        lemma_sextet_range(bytes, g, 2);
        lemma_sextet_range(bytes, g, 3);
        lemma_index_of_char(sextet(bytes, g, 0));
        lemma_index_of_char(sextet(bytes, g, 1));
        lemma_index_of_char(sextet(bytes, g, 2));
        lemma_index_of_char(sextet(bytes, g, 3));
        let b0 = byte_or_zero(bytes, 3 * g);
        let b1 = byte_or_zero(bytes, 3 * g + 1);
        let b2 = byte_or_zero(bytes, 3 * g + 2);
        assert(0 <= b0 < 256 && 0 <= b1 < 256 && 0 <= b2 < 256);
        assert(b0 == (b0 / 4) * 4 + ((b0 % 4) * 16 + b1 / 16) / 16);
        assert(b1 == (((b0 % 4) * 16 + b1 / 16) % 16) * 16 + ((b1 % 16) * 4 + b2 / 64) / 4);
        assert(b2 == (((b1 % 16) * 4 + b2 / 64) % 4) * 64 + b2 % 64);
    }
}

proof fn lemma_char_of_index(c: char)
    requires
        base64_index(c) is Some,
    ensures
        0 <= base64_index(c).unwrap() < 64,
        base64_char(base64_index(c).unwrap()) == c,
{
    let v = base64_index(c).unwrap();
    assert((c as int) as char == c);
}

/// A byte string has one standard base64 text: the model's encoding.
pub proof fn lemma_base64_of_is_encoded(bytes: Seq<u8>, text: Seq<char>)
    requires
        is_base64_of(bytes, text),
    ensures
        text == base64_encoded(bytes),
{
    let n = bytes.len() as int;
    let e = base64_encoded(bytes);
    assert forall|k: int| 0 <= k < text.len() implies text[k] == e[k] by {
        let g = k / 4;
        let p = k % 4;
        assert(k == 4 * g + p);
        assert(0 <= g < (n + 2) / 3);
        assert(group_writes(bytes, text, g));
        let b0 = byte_or_zero(bytes, 3 * g);
        let b1 = byte_or_zero(bytes, 3 * g + 1);
        let b2 = byte_or_zero(bytes, 3 * g + 2);
        assert(0 <= b0 < 256 && 0 <= b1 < 256 && 0 <= b2 < 256);
        let rest = n - 3 * g;
        if !is_padding(n, g, p) {
            lemma_char_of_index(text[k]);
            let v = base64_index(text[k]).unwrap();
            lemma_char_of_index(text[4 * g]);
            lemma_char_of_index(text[4 * g + 1]);
            let v0 = base64_index(text[4 * g]).unwrap();
            let v1 = base64_index(text[4 * g + 1]).unwrap();
            assert(b0 == v0 * 4 + v1 / 16);
            assert(v0 == b0 / 4 && v1 / 16 == b0 % 4);
            if rest == 1 {
                assert(b1 == 0);
                assert(v1 == (b0 % 4) * 16 + b1 / 16);
            } else {
                lemma_char_of_index(text[4 * g + 2]);
                let v2 = base64_index(text[4 * g + 2]).unwrap();
                assert(b1 == (v1 % 16) * 16 + v2 / 4);
                assert(v1 % 16 == b1 / 16 && v2 / 4 == b1 % 16);
                assert(v1 == (b0 % 4) * 16 + b1 / 16);
                if rest == 2 {
                    assert(b2 == 0);
                    assert(v2 == (b1 % 16) * 4 + b2 / 64);
                } else {
                    lemma_char_of_index(text[4 * g + 3]);
                    let v3 = base64_index(text[4 * g + 3]).unwrap();
                    assert(b2 == (v2 % 4) * 64 + v3);
                    assert(v2 % 4 == b2 / 64 && v3 == b2 % 64);
                    assert(v2 == (b1 % 16) * 4 + b2 / 64);
                }
            }
            assert(v == sextet(bytes, g, p));
        }
    }
    assert(text =~= e);
}

/// A text is decoded exactly when it is the standard base64 of some bytes,
/// and then to those bytes.
pub proof fn lemma_base64_decodes_standard_text(bytes: Seq<u8>, text: Seq<char>)
    requires
        is_base64_of(bytes, text),
    ensures
        base64_decoded(text) == Some(bytes),
{
    lemma_base64_of_is_encoded(bytes, text);
    lemma_base64_decode_encoded(bytes);
}

/// A text that decodes is the standard base64 of the bytes it decodes to.
pub proof fn lemma_base64_decoded_is_base64(text: Seq<char>)
    ensures
        base64_decoded(text) matches Some(b) ==> is_base64_of(b, text),
{
    if base64_decoded(text) is Some {
        let b = base64_decoded(text).unwrap();
        lemma_base64_encoded_is_base64(b);
    }
}

} // verus!
