//! JSON text as the compact serializer of `serde_json` writes it: string
//! literals and arrays, stated over sequences of characters.

use crate::percent::hex_value;
use crate::text::separated;
use vstd::prelude::*;

verus! {

/// The error that `serde_json` reports.
#[verifier::external_type_specification]
#[verifier::external_body]
pub struct ExJsonError(serde_json::Error);

/// The lower-case hexadecimal digit for `d`, which is below 16.
pub open spec fn hex_lower(d: u8) -> char {
    if d < 10 {
        (0x30 + d) as char
    } else {
        (0x57 + d) as char
    }
}

/// What one character becomes inside a string literal. A quote, a reverse
/// solidus and the control characters below U+0020 are escaped, the five that
/// have a short form by it and the others as `\u00` and two digits. Every
/// other character stands for itself.
pub open spec fn escape_char(c: char) -> Seq<char> {
    if c == '"' {
        seq!['\\', '"']
    } else if c == '\\' {
        seq!['\\', '\\']
    } else if c == '\u{08}' {
        seq!['\\', 'b']
    } else if c == '\u{09}' {
        seq!['\\', 't']
    } else if c == '\u{0A}' {
        seq!['\\', 'n']
    } else if c == '\u{0C}' {
        seq!['\\', 'f']
    } else if c == '\u{0D}' {
        seq!['\\', 'r']
    } else if (c as u32) < 0x20 {
        seq!['\\', 'u', '0', '0', hex_lower((c as u8) / 16), hex_lower((c as u8) % 16)]
    } else {
        seq![c]
    }
}

/// The escaped forms of the characters of `text`, one after the other.
pub open spec fn escape(text: Seq<char>) -> Seq<char>
    decreases text.len(),
{
    if text.len() == 0 {
        Seq::empty()
    } else {
        escape_char(text.first()) + escape(text.drop_first())
    }
}

/// The JSON string literal for `text`: its escaped form between two quotes.
pub open spec fn string_literal(text: Seq<char>) -> Seq<char> {
    seq!['"'] + escape(text) + seq!['"']
}

/// The JSON array whose elements are the given JSON texts: the texts with a
/// comma between each two neighbours, in square brackets.
pub open spec fn array(items: Seq<Seq<char>>) -> Seq<char> {
    seq!['['] + separated(items, ',') + seq![']']
}

/// The JSON array of the string literals for `texts`.
pub open spec fn string_array(texts: Seq<Seq<char>>) -> Seq<char> {
    array(texts.map_values(|text: Seq<char>| string_literal(text)))
}

/// The JSON array of the arrays of string literals for `groups`.
pub open spec fn string_arrays(groups: Seq<Seq<Seq<char>>>) -> Seq<char> {
    array(groups.map_values(|texts: Seq<Seq<char>>| string_array(texts)))
}

/// Whether `c` stands for itself inside a string literal.
pub open spec fn is_plain(c: char) -> bool {
    c != '"' && c != '\\' && (c as u32) >= 0x20
}

/// A text of characters that stand for themselves is its own escaped form.
pub proof fn lemma_escape_plain(text: Seq<char>)
    requires
        forall|i: int| 0 <= i < text.len() ==> is_plain(#[trigger] text[i]),
    ensures
        escape(text) == text,
    decreases text.len(),
{
    if text.len() > 0 {
        lemma_escape_plain(text.drop_first());
    }
}

/// The character that a reverse solidus and `c` stand for, where `c` is one
/// of the eight that may follow it alone.
pub open spec fn short_escape(c: char) -> Option<char> {
    if c == '"' {
        Some('"')
    } else if c == '\\' {
        Some('\\')
    } else if c == '/' {
        Some('/')
    } else if c == 'b' {
        Some('\u{08}')
    } else if c == 'f' {
        Some('\u{0C}')
    } else if c == 'n' {
        Some('\u{0A}')
    } else if c == 'r' {
        Some('\u{0D}')
    } else if c == 't' {
        Some('\u{09}')
    } else {
        None
    }
}

/// The character whose code the four hexadecimal digits spell, unless one of
/// them is no digit or the code is that of a surrogate.
pub open spec fn code_escape(a: char, b: char, c: char, d: char) -> Option<char> {
    match (hex_value(a), hex_value(b), hex_value(c), hex_value(d)) {
        (Some(a), Some(b), Some(c), Some(d)) => {
            let code = a * 4096 + b * 256 + c * 16 + d;
            if 0xD800 <= code <= 0xDFFF {
                None
            } else {
                Some(code as char)
            }
        },
        _ => None,
    }
}

/// `c` in front of what `rest` reads as, where it reads as something.
pub open spec fn read_after(c: char, rest: Option<Seq<char>>) -> Option<Seq<char>> {
    match rest {
        Some(text) => Some(seq![c] + text),
        None => None,
    }
}

/// The text that the inside of a string literal stands for. A reverse
/// solidus starts an escape: one more character, or `u` and four
/// hexadecimal digits. A quote or a control character may stand only
/// escaped. Pairs of escaped surrogates are not read.
pub open spec fn unescape(body: Seq<char>) -> Option<Seq<char>>
    decreases body.len(),
{
    if body.len() == 0 {
        Some(Seq::empty())
    } else if body[0] == '\\' {
        if body.len() >= 2 && short_escape(body[1]) is Some {
            read_after(short_escape(body[1]).unwrap(), unescape(body.skip(2)))
        } else if body.len() >= 6 && body[1] == 'u' && code_escape(
            body[2],
            body[3],
            body[4],
            body[5],
        ) is Some {
            read_after(
                code_escape(body[2], body[3], body[4], body[5]).unwrap(),
                unescape(body.skip(6)),
            )
        } else {
            None
        }
    } else if is_plain(body[0]) {
        read_after(body[0], unescape(body.skip(1)))
    } else {
        None
    }
}

/// The text that a JSON string literal stands for, or `None` where `text` is
/// no string literal.
pub open spec fn parse_string_literal(text: Seq<char>) -> Option<Seq<char>> {
    if text.len() >= 2 && text.first() == '"' && text.last() == '"' {
        unescape(text.subrange(1, text.len() - 1))
    } else {
        None
    }
}

/// A lower-case digit spells the value it was made from.
pub proof fn lemma_hex_value_of_hex_lower(d: u8)
    requires
        d < 16,
    ensures
        hex_value(hex_lower(d)) == Some(d),
{
}

/// Reading takes the escaped form of one character off the front of a text
/// as that character.
pub proof fn lemma_unescape_escaped_char(c: char, rest: Seq<char>)
    ensures
        unescape(escape_char(c) + rest) == read_after(c, unescape(rest)),
{
    let body = escape_char(c) + rest;
    if is_plain(c) {
        assert(body.skip(1) == rest);
    } else if (c as u32) < 0x20 && short_escape(escape_char(c)[1]) is None {
        let code = c as u8;
        lemma_hex_value_of_hex_lower(code / 16);
        lemma_hex_value_of_hex_lower(code % 16);
        assert(body.skip(6) == rest);
    } else {
        assert(body.skip(2) == rest);
    }
}

/// Reading undoes escaping.
pub proof fn lemma_unescape_escape(text: Seq<char>)
    ensures
        unescape(escape(text)) == Some(text),
    decreases text.len(),
{
    if text.len() > 0 {
        lemma_unescape_escaped_char(text.first(), escape(text.drop_first()));
        lemma_unescape_escape(text.drop_first());
    }
}

/// The string literal for a text reads as that text.
pub proof fn lemma_parse_string_literal(text: Seq<char>)
    ensures
        parse_string_literal(string_literal(text)) == Some(text),
{
    let literal = string_literal(text);
    assert(literal.subrange(1, literal.len() - 1) == escape(text));
    lemma_unescape_escape(text);
}

/// The texts that the strings of `groups` hold, group by group.
pub open spec fn texts_of(groups: Seq<Vec<String>>) -> Seq<Seq<Seq<char>>> {
    groups.map_values(|group: Vec<String>| group@.map_values(|text: String| text@))
}

/// `serde_json::to_string` on a string slice. It writes the string literal for
/// the slice and, writing to memory, does not fail.
#[verifier::external_body]
pub(crate) fn to_string_str(value: &str) -> (r: Result<String, serde_json::Error>)
    ensures
        r is Ok,
        r->Ok_0@ == string_literal(value@),
{
    serde_json::to_string(value)
}

/// `serde_json::to_string` on a vector of vectors of strings. It writes the
/// array of the arrays of their string literals, without white space, and,
/// writing to memory, does not fail.
#[verifier::external_body]
pub(crate) fn to_string_groups(groups: &Vec<Vec<String>>) -> (r: Result<String, serde_json::Error>)
    ensures
        r is Ok,
        r->Ok_0@ == string_arrays(texts_of(groups@)),
{
    serde_json::to_string(groups)
}

/// The `Display` form of a `serde_json::Error`.
#[verifier::external_body]
pub(crate) fn error_message(error: &serde_json::Error) -> (message: String) {
    error.to_string()
}

} // verus!
