//! Reading a URL back from its text: the path and the parameters of the
//! query that the text stands for.

use crate::percent::{
    decode_text, encode_byte, encode_bytes, encode_text, is_unreserved, lemma_decode_encode_text,
};
use crate::text::{
    free_of, lemma_separated_holds, lemma_separated_len, lemma_split_first, lemma_split_one,
    lemma_split_separated, separated, split,
};
use crate::url_ext::UrlView;
use vstd::prelude::*;
use vstd::utf8::{decode_utf8, encode_utf8};

verus! {

/// The text that an encoded text stands for.
pub open spec fn read_text(encoded: Seq<char>) -> Seq<char> {
    decode_utf8(decode_text(encoded))
}

/// The parameter that one piece of a query stands for. The name ends at the
/// first `=`, and the value is all that follows it.
pub open spec fn read_pair(piece: Seq<char>) -> (Seq<char>, Seq<char>) {
    let parts = split(piece, '=');
    (read_text(parts[0]), read_text(separated(parts.drop_first(), '=')))
}

/// The parameters that a query stands for: one for each piece between the
/// places where `&` stands, and none where the query is empty.
pub open spec fn read_query(query: Seq<char>) -> Seq<(Seq<char>, Seq<char>)> {
    if query.len() == 0 {
        Seq::empty()
    } else {
        split(query, '&').map_values(|piece: Seq<char>| read_pair(piece))
    }
}

/// The URL that a text stands for. The path ends at the first `?`, and the
/// query is all that follows it.
pub open spec fn read_url(text: Seq<char>) -> UrlView {
    let parts = split(text, '?');
    UrlView { path: parts[0], pairs: read_query(separated(parts.drop_first(), '?')) }
}

/// Whether `c` can stand in an encoded text: a character that is written
/// unchanged, as the hexadecimal digits are, or `+`, or `%`.
pub open spec fn is_encoded_char(c: char) -> bool {
    ||| (c as u32) < 0x80 && is_unreserved(c as u8)
    ||| c == '+'
    ||| c == '%'
}

/// An encoded text holds no other characters than those that can stand in
/// one; so `&`, `=` and `?` stand nowhere in it.
pub proof fn lemma_encoded_chars(bytes: Seq<u8>)
    ensures
        forall|i: int|
            0 <= i < encode_bytes(bytes).len() ==> is_encoded_char(#[trigger] encode_bytes(bytes)[i]),
        free_of(encode_bytes(bytes), '&'),
        free_of(encode_bytes(bytes), '='),
        free_of(encode_bytes(bytes), '?'),
    decreases bytes.len(),
{
    if bytes.len() > 0 {
        let first = encode_byte(bytes.first());
        let rest = encode_bytes(bytes.drop_first());
        lemma_encoded_chars(bytes.drop_first());
        assert forall|i: int| 0 <= i < (first + rest).len() implies is_encoded_char(
            #[trigger] (first + rest)[i],
        ) by {
            if i >= first.len() {
                assert((first + rest)[i] == rest[i - first.len()]);
            }
        }
    }
}

/// A parameter is read back from the piece that it is in a query.
pub proof fn lemma_read_pair(pair: (Seq<char>, Seq<char>))
    ensures
        read_pair(UrlView::pair_text(pair)) == pair,
        free_of(UrlView::pair_text(pair), '&'),
        free_of(UrlView::pair_text(pair), '?'),
        UrlView::pair_text(pair).len() >= 1,
{
    let name = encode_text(pair.0);
    let value = encode_text(pair.1);
    lemma_encoded_chars(encode_utf8(pair.0));
    lemma_encoded_chars(encode_utf8(pair.1));
    lemma_split_first(name, '=', value);
    lemma_split_one(value, '=');
    lemma_decode_encode_text(pair.0);
    lemma_decode_encode_text(pair.1);
    assert(UrlView::pair_text(pair)[name.len() as int] == '=');
}

/// The parameters of a URL are read back from its query.
pub proof fn lemma_read_query(url: UrlView)
    ensures
        read_query(url.query()) == url.pairs,
        free_of(url.query(), '?'),
        url.pairs.len() > 0 ==> url.query().len() > 0,
{
    let pieces = url.pairs.map_values(|pair: (Seq<char>, Seq<char>)| UrlView::pair_text(pair));
    if url.pairs.len() > 0 {
        assert forall|i: int| 0 <= i < pieces.len() implies free_of(#[trigger] pieces[i], '&')
            && free_of(pieces[i], '?') && read_pair(pieces[i]) == url.pairs[i] by {
            lemma_read_pair(url.pairs[i]);
        }
        lemma_split_separated(pieces, '&');
        lemma_separated_holds(pieces, '&', '?');
        lemma_read_pair(url.pairs[0]);
        lemma_separated_len(pieces, '&');
        assert(read_query(url.query()) == url.pairs);
    }
}

/// A URL whose path holds no `?` is read back from its text.
pub proof fn lemma_read_url(url: UrlView)
    requires
        free_of(url.path, '?'),
    ensures
        read_url(url.text()) == url,
{
    lemma_read_query(url);
    if url.pairs.len() == 0 {
        lemma_split_one(url.path, '?');
    } else {
        lemma_split_first(url.path, '?', url.query());
        lemma_split_one(url.query(), '?');
    }
}

} // verus!
