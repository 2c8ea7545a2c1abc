//! Percent-encoding of text in URLs.

use vstd::prelude::*;
use vstd::utf8::{
    decode_utf8, decode_utf8_encode_utf8, encode_utf8, encode_utf8_decode_utf8, encode_utf8_valid_utf8, is_ascii_chars,
    is_ascii_chars_encode_utf8, valid_utf8,
};

verus! {

// ── Encoding ─────────────────────────────────────────────────────

/// The bytes that stand for themselves in an encoded text: letters, digits and `-`, `.`, `_`, `~`.
pub open spec fn is_unreserved(b: u8) -> bool {
    ||| 0x30 <= b <= 0x39
    ||| 0x41 <= b <= 0x5a
    ||| 0x61 <= b <= 0x7a
    ||| b == 0x2d
    ||| b == 0x2e
    ||| b == 0x5f
    ||| b == 0x7e
}

/// The upper-case hexadecimal digit for `n`.
pub open spec fn hex_digit(n: int) -> char {
    if n < 10 {
        (0x30 + n) as char
    } else {
        (0x41 + n - 10) as char
    }
}

/// How a byte is written in an encoded text.
pub open spec fn escaped(b: u8) -> Seq<char> {
    if is_unreserved(b) {
        seq![b as char]
    } else {
        seq!['%', hex_digit(b as int / 16), hex_digit(b as int % 16)]
    }
}

/// The encoded text of a sequence of bytes.
pub open spec fn percent_encoded(bytes: Seq<u8>) -> Seq<char>
    decreases bytes.len(),
{
    if bytes.len() == 0 {
        Seq::empty()
    } else {
        escaped(bytes[0]) + percent_encoded(bytes.drop_first())
    }
}

/// `urlencoding::encode`: percent-encodes every byte of the UTF-8 form of the text, except letters,
/// digits and `-`, `.`, `_`, `~`, with upper-case digits.
#[verifier::external_body]
pub(crate) fn encode(text: &str) -> (r: String)
    ensures
        r@ == percent_encoded(encode_utf8(text@)),
{
    urlencoding::encode(text).into_owned()
}

// ── Decoding ─────────────────────────────────────────────────────

/// The value of a hexadecimal digit in either case.
pub open spec fn hex_value(b: u8) -> Option<u8> {
    if 0x30 <= b <= 0x39 {
        Some((b - 0x30) as u8)
    } else if 0x41 <= b <= 0x46 {
        Some((b - 0x41 + 10) as u8)
    } else if 0x61 <= b <= 0x66 {
        Some((b - 0x61 + 10) as u8)
    } else {
        None
    }
}

/// Whether the bytes begin with a `%` and two hexadecimal digits.
pub open spec fn begins_with_escape(bytes: Seq<u8>) -> bool {
    bytes.len() >= 3 && bytes[0] == 0x25 && hex_value(bytes[1]) is Some && hex_value(
        bytes[2],
    ) is Some
}

/// The bytes that an encoded text stands for: each `%` with two hexadecimal digits after it is the
/// byte of that value, every other byte stands for itself.
pub open spec fn percent_decoded(bytes: Seq<u8>) -> Seq<u8>
    decreases bytes.len(),
{
    if bytes.len() == 0 {
        Seq::empty()
    } else if begins_with_escape(bytes) {
        seq![(16 * hex_value(bytes[1])->Some_0 + hex_value(bytes[2])->Some_0) as u8]
            + percent_decoded(bytes.skip(3))
    } else {
        seq![bytes[0]] + percent_decoded(bytes.drop_first())
    }
}

/// `urlencoding::decode`: decodes the escapes of the text. There is a result only where the
/// decoded bytes are valid UTF-8; it is the text of those bytes.
#[verifier::external_body]
pub(crate) fn decode(text: &str) -> (r: Option<String>)
    ensures
        match r {
            Some(t) => encode_utf8(t@) == percent_decoded(encode_utf8(text@)),
            None => !valid_utf8(percent_decoded(encode_utf8(text@))),
        },
{
    match urlencoding::decode(text) {
        Ok(t) => Some(t.into_owned()),
        Err(_) => None,
    }
}

/// What a text stands for where it may be percent-encoded: the text of its decoded bytes, or the
/// text itself where these are not valid UTF-8.
pub open spec fn decoded_or_kept(text: Seq<char>) -> Seq<char> {
    let bytes = percent_decoded(encode_utf8(text));
    if valid_utf8(bytes) {
        decode_utf8(bytes)
    } else {
        text
    }
}

/// Decodes a text that may be percent-encoded. A text that does not decode to valid UTF-8 is kept.
pub fn decode_or_keep(text: &str) -> (r: String)
    ensures
        r@ == decoded_or_kept(text@),
{
    match decode(text) {
        Some(t) => {
            proof {
                encode_utf8_valid_utf8(t@);
                encode_utf8_decode_utf8(t@);
            }
            t
        },
        None => text.to_owned(),
    }
}

// ── Laws ─────────────────────────────────────────────────────────

proof fn lemma_escaped(b: u8)
    ensures
        is_ascii_chars(escaped(b)),
        !escaped(b).contains('&'),
        escaped(b).len() > 0,
        !is_unreserved(b) ==> {
            &&& escaped(b).len() == 3
            &&& hex_value(escaped(b)[1] as u8) == Some((b as int / 16) as u8)
            &&& hex_value(escaped(b)[2] as u8) == Some((b as int % 16) as u8)
        },
{
}

/// An encoded text is ASCII and holds no `&`, which would end it in the query of a URL.
pub proof fn encoded_text_is_safe_in_a_query(bytes: Seq<u8>)
    ensures
        is_ascii_chars(percent_encoded(bytes)),
        !percent_encoded(bytes).contains('&'),
    decreases bytes.len(),
{
    if bytes.len() > 0 {
        encoded_text_is_safe_in_a_query(bytes.drop_first());
        lemma_escaped(bytes[0]);
        let head = escaped(bytes[0]);
        let tail = percent_encoded(bytes.drop_first());
        let all = percent_encoded(bytes);
        assert forall|i: int| 0 <= i < all.len() implies (#[trigger] all[i]) as nat <= 127
            && all[i] != '&' by {
            if i < head.len() {
                assert(all[i] == head[i]);
            } else {
                assert(all[i] == tail[i - head.len()]);
            }
        }
    }
}

/// The characters of an ASCII text as bytes.
spec fn as_bytes(s: Seq<char>) -> Seq<u8> {
    Seq::new(s.len(), |i: int| s[i] as u8)
}

proof fn lemma_decoded_of_encoded(bytes: Seq<u8>)
    ensures
        percent_decoded(as_bytes(percent_encoded(bytes))) == bytes,
    decreases bytes.len(),
{
    let enc = as_bytes(percent_encoded(bytes));
    if bytes.len() > 0 {
        let head = escaped(bytes[0]);
        let tail = percent_encoded(bytes.drop_first());
        lemma_escaped(bytes[0]);
        lemma_decoded_of_encoded(bytes.drop_first());
        if is_unreserved(bytes[0]) {
            assert(enc[0] == bytes[0]);
            assert(enc.drop_first() =~= as_bytes(tail));
        } else {
            assert(enc[0] == 0x25 && enc[1] == head[1] as u8 && enc[2] == head[2] as u8);
            assert(enc.skip(3) =~= as_bytes(tail));
        }
        assert(seq![bytes[0]] + bytes.drop_first() =~= bytes);
    } else {
        assert(bytes =~= Seq::<u8>::empty());
    }
}

/// Decoding gives back every text that was encoded.
pub proof fn decoding_undoes_encoding(text: Seq<char>)
    ensures
        decoded_or_kept(percent_encoded(encode_utf8(text))) == text,
{
    let bytes = encode_utf8(text);
    let enc = percent_encoded(bytes);
    encoded_text_is_safe_in_a_query(bytes);
    is_ascii_chars_encode_utf8(enc);
    assert(encode_utf8(enc) =~= as_bytes(enc));
    lemma_decoded_of_encoded(bytes);
    encode_utf8_valid_utf8(text);
    encode_utf8_decode_utf8(text);
}

/// What a text that may be encoded stands for: where its escapes give valid UTF-8, the text of
/// these bytes, and else the text itself.
pub proof fn escapes_are_read_as_bytes(text: Seq<char>)
    ensures
        valid_utf8(percent_decoded(encode_utf8(text))) ==> encode_utf8(decoded_or_kept(text))
            == percent_decoded(encode_utf8(text)),
        !valid_utf8(percent_decoded(encode_utf8(text))) ==> decoded_or_kept(text) == text,
{
    if valid_utf8(percent_decoded(encode_utf8(text))) {
        decode_utf8_encode_utf8(percent_decoded(encode_utf8(text)));
    }
}

proof fn lemma_nothing_to_decode(bytes: Seq<u8>)
    requires
        forall|i: int| 0 <= i < bytes.len() ==> #[trigger] bytes[i] != 0x25,
    ensures
        percent_decoded(bytes) == bytes,
    decreases bytes.len(),
{
    if bytes.len() > 0 {
        assert(bytes[0] != 0x25);
        let rest = bytes.drop_first();
        assert forall|i: int| 0 <= i < rest.len() implies #[trigger] rest[i] != 0x25 by {
            assert(rest[i] == bytes[i + 1]);
        }
        lemma_nothing_to_decode(rest);
        assert(seq![bytes[0]] + rest =~= bytes);
    } else {
        assert(percent_decoded(bytes) =~= bytes);
    }
}

/// An ASCII text without a percent sign stands for itself, plus signs and all.
pub proof fn texts_without_escapes_stay(text: Seq<char>)
    requires
        is_ascii_chars(text),
        !text.contains('%'),
    ensures
        decoded_or_kept(text) == text,
{
    is_ascii_chars_encode_utf8(text);
    let bytes = encode_utf8(text);
    assert forall|i: int| 0 <= i < bytes.len() implies #[trigger] bytes[i] != 0x25 by {
        assert(text.contains(text[i]));
        assert(bytes[i] == text[i] as u8);
    }
    lemma_nothing_to_decode(bytes);
    encode_utf8_valid_utf8(text);
    encode_utf8_decode_utf8(text);
}

/// Bytes are encoded one by one: letters, digits and `-`, `.`, `_`, `~` as they are, each other as a
/// `%` and two upper-case digits.
pub proof fn bytes_are_encoded_one_by_one(b: u8, rest: Seq<u8>)
    ensures
        percent_encoded(Seq::empty()).len() == 0,
        ({
            let c = b as char;
            percent_encoded(seq![b] + rest) == (if 'A' <= c <= 'Z' || 'a' <= c <= 'z' || '0' <= c
                <= '9' || c == '-' || c == '.' || c == '_' || c == '~' {
                seq![c]
            } else {
                seq!['%', "0123456789ABCDEF"@[b as int / 16], "0123456789ABCDEF"@[b as int % 16]]
            }) + percent_encoded(rest)
        }),
{
    reveal_strlit("0123456789ABCDEF");
    assert((seq![b] + rest).drop_first() =~= rest);
    let high = b as int / 16;
    let low = b as int % 16;
    let digits = "0123456789ABCDEF"@;
    assert(0 <= high < 16 && 0 <= low < 16);
    assert(digits[0] == '0');
    assert(digits[1] == '1');
    assert(digits[2] == '2');
    assert(digits[3] == '3');
    assert(digits[4] == '4');
    assert(digits[5] == '5');
    assert(digits[6] == '6');
    assert(digits[7] == '7');
    assert(digits[8] == '8');
    assert(digits[9] == '9');
    assert(digits[10] == 'A');
    assert(digits[11] == 'B');
    assert(digits[12] == 'C');
    assert(digits[13] == 'D');
    assert(digits[14] == 'E');
    assert(digits[15] == 'F');
    assert(hex_digit(high) == digits[high] && hex_digit(low) == digits[low]);
}

} // verus!
