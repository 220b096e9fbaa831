//! The `application/x-www-form-urlencoded` byte serializer, as used for the
//! names and values of a query string, and the decoder that undoes it.

use vstd::prelude::*;
use vstd::utf8::{
    decode_utf8, encode_utf8, encode_utf8_decode_utf8, is_ascii_chars, is_ascii_chars_encode_utf8,
};

verus! {

/// Whether `b` is written unchanged: an ASCII letter, a digit, or one of `*-._`.
pub open spec fn is_unreserved(b: u8) -> bool {
    ||| 0x30 <= b <= 0x39
    ||| 0x41 <= b <= 0x5A
    ||| 0x61 <= b <= 0x7A
    ||| b == 0x2A
    ||| b == 0x2D
    ||| b == 0x2E
    ||| b == 0x5F
}

/// The upper-case hexadecimal digit for `d`, which is below 16.
pub open spec fn hex_upper(d: u8) -> char {
    if d < 10 {
        (0x30 + d) as char
    } else {
        (0x37 + d) as char
    }
}

/// What one byte becomes: itself, `+` for a space, or `%` and two digits.
pub open spec fn encode_byte(b: u8) -> Seq<char> {
    if is_unreserved(b) {
        seq![b as char]
    } else if b == 0x20 {
        seq!['+']
    } else {
        seq!['%', hex_upper(b / 16), hex_upper(b % 16)]
    }
}

/// The encodings of the bytes, one after the other.
pub open spec fn encode_bytes(bytes: Seq<u8>) -> Seq<char>
    decreases bytes.len(),
{
    if bytes.len() == 0 {
        Seq::empty()
    } else {
        encode_byte(bytes.first()) + encode_bytes(bytes.drop_first())
    }
}

/// The encoding of a text: that of its UTF-8 bytes.
pub open spec fn encode_text(text: Seq<char>) -> Seq<char> {
    encode_bytes(encode_utf8(text))
}

/// Encoding distributes over concatenation.
pub proof fn lemma_encode_bytes_concat(a: Seq<u8>, b: Seq<u8>)
    ensures
        encode_bytes(a + b) == encode_bytes(a) + encode_bytes(b),
    decreases a.len(),
{
    if a.len() > 0 {
        assert((a + b).drop_first() == a.drop_first() + b);
        lemma_encode_bytes_concat(a.drop_first(), b);
    }
}

/// The value of a hexadecimal digit of either case.
pub open spec fn hex_value(c: char) -> Option<u8> {
    if '0' <= c <= '9' {
        Some((c as u8 - 0x30) as u8)
    } else if 'A' <= c <= 'F' {
        Some((c as u8 - 0x37) as u8)
    } else if 'a' <= c <= 'f' {
        Some((c as u8 - 0x57) as u8)
    } else {
        None
    }
}

/// Whether `text` starts with `%` and two hexadecimal digits.
pub open spec fn starts_with_escape(text: Seq<char>) -> bool {
    &&& text.len() >= 3
    &&& text[0] == '%'
    &&& hex_value(text[1]) is Some
    &&& hex_value(text[2]) is Some
}

/// The bytes that an encoded text stands for: `+` is a space, `%` and two
/// digits are the byte they spell, any other character is its UTF-8 bytes.
pub open spec fn decode_text(text: Seq<char>) -> Seq<u8>
    decreases text.len(),
{
    if text.len() == 0 {
        Seq::empty()
    } else if text[0] == '+' {
        seq![0x20u8] + decode_text(text.skip(1))
    } else if starts_with_escape(text) {
        seq![(hex_value(text[1]).unwrap() * 16 + hex_value(text[2]).unwrap()) as u8] + decode_text(
            text.skip(3),
        )
    } else {
        encode_utf8(seq![text[0]]) + decode_text(text.skip(1))
    }
}

/// An upper-case digit spells the value it was made from.
pub proof fn lemma_hex_value_of_hex_upper(d: u8)
    requires
        d < 16,
    ensures
        hex_value(hex_upper(d)) == Some(d),
{
}

/// Decoding reads the encoding of one byte off the front of a text as that byte.
pub proof fn lemma_decode_encoded_byte(b: u8, rest: Seq<char>)
    ensures
        decode_text(encode_byte(b) + rest) == seq![b] + decode_text(rest),
{
    let text = encode_byte(b) + rest;
    if is_unreserved(b) {
        assert(text.skip(1) == rest);
        is_ascii_chars_encode_utf8(seq![b as char]);
    } else if b == 0x20 {
        assert(text.skip(1) == rest);
    } else {
        lemma_hex_value_of_hex_upper(b / 16);
        lemma_hex_value_of_hex_upper(b % 16);
        assert(text.skip(3) == rest);
    }
}

/// Decoding undoes encoding, byte for byte.
pub proof fn lemma_decode_encode_bytes(bytes: Seq<u8>)
    ensures
        decode_text(encode_bytes(bytes)) == bytes,
    decreases bytes.len(),
{
    if bytes.len() > 0 {
        lemma_decode_encoded_byte(bytes.first(), encode_bytes(bytes.drop_first()));
        lemma_decode_encode_bytes(bytes.drop_first());
    }
}

/// An encoded text decodes to the UTF-8 bytes of the text it was made from,
/// and those read back as that text.
pub proof fn lemma_decode_encode_text(text: Seq<char>)
    ensures
        decode_text(encode_text(text)) == encode_utf8(text),
        decode_utf8(decode_text(encode_text(text))) == text,
{
    lemma_decode_encode_bytes(encode_utf8(text));
    encode_utf8_decode_utf8(text);
}

/// The UTF-8 bytes of a text that is put together from two parts are put
/// together from theirs.
pub proof fn lemma_encode_utf8_concat(a: Seq<char>, b: Seq<char>)
    ensures
        encode_utf8(a + b) == encode_utf8(a) + encode_utf8(b),
    decreases a.len(),
{
    if a.len() > 0 {
        assert((a + b).drop_first() == a.drop_first() + b);
        lemma_encode_utf8_concat(a.drop_first(), b);
    }
}

/// The encoding of a text that is put together from two parts is put
/// together from theirs.
pub proof fn lemma_encode_text_concat(a: Seq<char>, b: Seq<char>)
    ensures
        encode_text(a + b) == encode_text(a) + encode_text(b),
{
    lemma_encode_utf8_concat(a, b);
    lemma_encode_bytes_concat(encode_utf8(a), encode_utf8(b));
}

/// Whether `c` is one of the characters that are written unchanged.
pub open spec fn is_unreserved_char(c: char) -> bool {
    (c as u32) < 0x80 && is_unreserved(c as u8)
}

/// A character that is written unchanged is its own encoding.
pub proof fn lemma_encode_unreserved_char(c: char)
    requires
        is_unreserved_char(c),
    ensures
        encode_text(seq![c]) == seq![c],
{
    is_ascii_chars_encode_utf8(seq![c]);
    reveal_with_fuel(encode_bytes, 2);
}

/// A text of characters that are written unchanged is its own encoding.
pub proof fn lemma_encode_unreserved_text(text: Seq<char>)
    requires
        forall|i: int| 0 <= i < text.len() ==> is_unreserved_char(#[trigger] text[i]),
    ensures
        encode_text(text) == text,
    decreases text.len(),
{
    if text.len() > 0 {
        let c = text[0];
        assert(seq![c] + text.drop_first() == text);
        lemma_encode_text_concat(seq![c], text.drop_first());
        lemma_encode_unreserved_text(text.drop_first());
        lemma_encode_unreserved_char(c);
    }
}

/// A quote is encoded as `%22`.
pub proof fn lemma_encode_quote()
    ensures
        encode_text(seq!['"']) == seq!['%', '2', '2'],
{
    is_ascii_chars_encode_utf8(seq!['"']);
    reveal_with_fuel(encode_bytes, 2);
}

/// Whether `b` is written unchanged.
fn unreserved(b: u8) -> (r: bool)
    ensures
        r == is_unreserved(b),
{
    (0x30 <= b && b <= 0x39) || (0x41 <= b && b <= 0x5A) || (0x61 <= b && b <= 0x7A) || b == 0x2A
        || b == 0x2D || b == 0x2E || b == 0x5F
}

/// The upper-case hexadecimal digit for `d`.
fn hex_upper_digit(d: u8) -> (c: char)
    requires
        d < 16,
    ensures
        c == hex_upper(d),
{
    if d < 10 {
        (0x30u8 + d) as char
    } else {
        (0x37u8 + d) as char
    }
}

/// Encodes `text` for use as a name or a value in a query string.
pub fn form_encode(text: &str) -> (out: String)
    ensures
        out@ == encode_text(text@),
{
    let bytes = text.as_bytes();
    let mut out = String::new();
    let mut i: usize = 0;
    while i < bytes.len()
        invariant
            i <= bytes@.len(),
            out@ == encode_bytes(bytes@.take(i as int)),
        decreases bytes@.len() - i,
    {
        let b: u8 = bytes[i];
        proof {
            let done = bytes@.take(i as int);
            assert(bytes@.take(i + 1) == done + seq![b]);
            lemma_encode_bytes_concat(done, seq![b]);
            assert(encode_bytes(seq![b]) == encode_byte(b)) by {
                reveal_with_fuel(encode_bytes, 2);
            }
        }
        if unreserved(b) {
            out.push(b as char);
        } else if b == 0x20 {
            out.push('+');
        } else {
            out.push('%');
            out.push(hex_upper_digit(b / 16));
            out.push(hex_upper_digit(b % 16));
        }
        i += 1;
    }
    assert(bytes@.take(i as int) == bytes@);
    out
}

} // verus!
