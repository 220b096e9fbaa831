//! What holds of the URL of every search: its text, and what its parameters
//! hold and stand for.

use crate::api_calls::search::{search_paged_url, search_path, search_url};
use crate::json::{
    escape, is_plain, lemma_escape_plain, lemma_parse_string_literal, parse_string_literal,
    string_array, string_arrays, string_literal,
};
use crate::percent::{
    encode_text, is_unreserved_char, lemma_encode_quote, lemma_encode_text_concat,
    lemma_encode_unreserved_text,
};
use crate::structures::search::Sort;
use crate::text::{decimal, free_of, is_digit, lemma_decimal_is_digits, separated};
use crate::url_ext::{lemma_with_query_text, UrlView};
use crate::url_read::{lemma_read_url, read_url};
use vstd::prelude::*;

verus! {

/// Whether `c` is a lower-case letter or a digit.
pub open spec fn is_word_char(c: char) -> bool {
    'a' <= c <= 'z' || is_digit(c)
}

/// Whether `text` holds lower-case letters and digits only.
pub open spec fn is_word(text: Seq<char>) -> bool {
    forall|i: int| 0 <= i < text.len() ==> is_word_char(#[trigger] text[i])
}

/// A text of lower-case letters and digits is written unchanged in a query
/// and inside a string literal.
pub proof fn lemma_word_stands(text: Seq<char>)
    requires
        is_word(text),
    ensures
        encode_text(text) == text,
        escape(text) == text,
{
    assert forall|i: int| 0 <= i < text.len() implies is_unreserved_char(#[trigger] text[i])
        && is_plain(text[i]) by {
        assert(is_word_char(text[i]));
    }
    lemma_encode_unreserved_text(text);
    lemma_escape_plain(text);
}

/// The name of every order holds lower-case letters only.
pub proof fn lemma_sort_text_is_word(sort: Sort)
    ensures
        is_word(sort.text()),
{
    reveal_strlit("relevance");
    reveal_strlit("downloads");
    reveal_strlit("follows");
    reveal_strlit("newest");
    reveal_strlit("updated");
}

/// The names of the five parameters hold lower-case letters only.
pub proof fn lemma_names_are_words()
    ensures
        is_word("query"@),
        is_word("index"@),
        is_word("limit"@),
        is_word("offset"@),
        is_word("facets"@),
{
    reveal_strlit("query");
    reveal_strlit("index");
    reveal_strlit("limit");
    reveal_strlit("offset");
    reveal_strlit("facets");
}

/// The string literal for a text of lower-case letters and digits is encoded
/// in a query as the text between two `%22`.
pub proof fn lemma_encode_word_literal(text: Seq<char>)
    requires
        is_word(text),
    ensures
        encode_text(string_literal(text)) == "%22"@ + text + "%22"@,
{
    reveal_strlit("%22");
    lemma_word_stands(text);
    lemma_encode_quote();
    lemma_encode_text_concat(seq!['"'] + text, seq!['"']);
    lemma_encode_text_concat(seq!['"'], text);
}

/// The string literal for any text is encoded in a query as the encoding of
/// its escaped form between two `%22`.
pub proof fn lemma_encode_literal(text: Seq<char>)
    ensures
        encode_text(string_literal(text)) == "%22"@ + encode_text(escape(text)) + "%22"@,
{
    reveal_strlit("%22");
    lemma_encode_quote();
    lemma_encode_text_concat(seq!['"'] + escape(text), seq!['"']);
    lemma_encode_text_concat(seq!['"'], escape(text));
}

/// What stands between the values in the text of the URL of a search
/// without pagination: `?` or `&`, the name of the parameter, and `=`.
proof fn lemma_plain_joints()
    ensures
        "?query="@ == seq!['?'] + encode_text("query"@) + seq!['='],
        "&index="@ == seq!['&'] + encode_text("index"@) + seq!['='],
        "&facets="@ == seq!['&'] + encode_text("facets"@) + seq!['='],
{
    lemma_names_are_words();
    lemma_word_stands("query"@);
    lemma_word_stands("index"@);
    lemma_word_stands("facets"@);
    reveal_strlit("query");
    reveal_strlit("index");
    reveal_strlit("facets");
    reveal_strlit("?query=");
    reveal_strlit("&index=");
    reveal_strlit("&facets=");
}

/// What stands between the values in the text of the URL of a search with
/// pagination: the encoded quote that ends a value, `&`, the name of the next
/// parameter, `=`, and the encoded quote that starts its value.
proof fn lemma_quoted_joints()
    ensures
        "?query=%22"@ == seq!['?'] + encode_text("query"@) + seq!['='] + "%22"@,
        "%22&index=%22"@ == "%22"@ + seq!['&'] + encode_text("index"@) + seq!['='] + "%22"@,
        "%22&limit=%22"@ == "%22"@ + seq!['&'] + encode_text("limit"@) + seq!['='] + "%22"@,
        "%22&offset=%22"@ == "%22"@ + seq!['&'] + encode_text("offset"@) + seq!['='] + "%22"@,
        "%22&facets=%22"@ == "%22"@ + seq!['&'] + encode_text("facets"@) + seq!['='] + "%22"@,
{
    lemma_names_are_words();
    lemma_word_stands("query"@);
    lemma_word_stands("index"@);
    lemma_word_stands("limit"@);
    lemma_word_stands("offset"@);
    lemma_word_stands("facets"@);
    reveal_strlit("query");
    reveal_strlit("index");
    reveal_strlit("limit");
    reveal_strlit("offset");
    reveal_strlit("facets");
    reveal_strlit("%22");
    reveal_strlit("?query=%22");
    reveal_strlit("%22&index=%22");
    reveal_strlit("%22&limit=%22");
    reveal_strlit("%22&offset=%22");
    reveal_strlit("%22&facets=%22");
}

/// The text of the URL of a search without pagination: the address of the
/// endpoint and the three parameters, of which only the query and the facets
/// can hold anything that needs encoding.
pub proof fn lemma_search_url_text(query: Seq<char>, sort: Sort, facets: Seq<Seq<Seq<char>>>)
    ensures
        search_url(query, sort, facets).text() == search_path() + "?query="@ + encode_text(query)
            + "&index="@ + sort.text() + "&facets="@ + encode_text(string_arrays(facets)),
{
    let url = search_url(query, sort, facets);
    let u0 = UrlView::new(search_path());
    let u1 = u0.with_query("query"@, query);
    let u2 = u1.with_query("index"@, sort.text());
    let u3 = u2.with_query("facets"@, string_arrays(facets));
    assert(u3.pairs =~= url.pairs);
    lemma_plain_joints();
    lemma_sort_text_is_word(sort);
    lemma_word_stands(sort.text());
    let t1 = search_path() + "?query="@ + encode_text(query);
    assert(u1.text() == t1) by {
        lemma_with_query_text(u0, "query"@, query);
    }
    let t2 = t1 + "&index="@ + sort.text();
    assert(u2.text() == t2) by {
        lemma_with_query_text(u1, "index"@, sort.text());
    }
    let t3 = t2 + "&facets="@ + encode_text(string_arrays(facets));
    assert(u3.text() == t3) by {
        lemma_with_query_text(u2, "facets"@, string_arrays(facets));
    }
}

/// One more parameter whose value is a string literal adds to the text of a
/// URL what leads up to the value, the encoded value and an encoded quote.
proof fn lemma_quoted_step(
    url: UrlView,
    so_far: Seq<char>,
    joint: Seq<char>,
    name: Seq<char>,
    value: Seq<char>,
    encoded: Seq<char>,
)
    requires
        url.text() == if url.pairs.len() == 0 {
            so_far
        } else {
            so_far + "%22"@
        },
        joint == if url.pairs.len() == 0 {
            seq!['?'] + encode_text(name) + seq!['='] + "%22"@
        } else {
            "%22"@ + seq!['&'] + encode_text(name) + seq!['='] + "%22"@
        },
        encode_text(string_literal(value)) == "%22"@ + encoded + "%22"@,
    ensures
        url.with_query(name, string_literal(value)).text() == so_far + joint + encoded + "%22"@,
{
    lemma_with_query_text(url, name, string_literal(value));
}

/// The text of the URL of a search with pagination: the address of the
/// endpoint and the five parameters, each value between two encoded quotes.
/// Only the query and the facets can hold anything else that needs encoding.
pub proof fn lemma_search_paged_url_text(
    query: Seq<char>,
    sort: Sort,
    limit: nat,
    offset: nat,
    facets: Seq<Seq<Seq<char>>>,
)
    ensures
        search_paged_url(query, sort, limit, offset, facets).text() == search_path()
            + "?query=%22"@ + encode_text(escape(query)) + "%22&index=%22"@ + sort.text()
            + "%22&limit=%22"@ + decimal(limit) + "%22&offset=%22"@ + decimal(offset)
            + "%22&facets=%22"@ + encode_text(escape(string_arrays(facets))) + "%22"@,
{
    let url = search_paged_url(query, sort, limit, offset, facets);
    let u0 = UrlView::new(search_path());
    let u1 = u0.with_query("query"@, string_literal(query));
    let u2 = u1.with_query("index"@, string_literal(sort.text()));
    let u3 = u2.with_query("limit"@, string_literal(decimal(limit)));
    let u4 = u3.with_query("offset"@, string_literal(decimal(offset)));
    let u5 = u4.with_query("facets"@, string_literal(string_arrays(facets)));
    assert(u5.pairs =~= url.pairs);
    lemma_quoted_joints();
    lemma_sort_text_is_word(sort);
    lemma_decimal_is_digits(limit);
    lemma_decimal_is_digits(offset);
    lemma_encode_literal(query);
    lemma_encode_word_literal(sort.text());
    lemma_encode_word_literal(decimal(limit));
    lemma_encode_word_literal(decimal(offset));
    lemma_encode_literal(string_arrays(facets));
    let t0 = search_path();
    let t1 = t0 + "?query=%22"@ + encode_text(escape(query));
    lemma_quoted_step(u0, t0, "?query=%22"@, "query"@, query, encode_text(escape(query)));
    let t2 = t1 + "%22&index=%22"@ + sort.text();
    lemma_quoted_step(u1, t1, "%22&index=%22"@, "index"@, sort.text(), sort.text());
    let t3 = t2 + "%22&limit=%22"@ + decimal(limit);
    lemma_quoted_step(u2, t2, "%22&limit=%22"@, "limit"@, decimal(limit), decimal(limit));
    let t4 = t3 + "%22&offset=%22"@ + decimal(offset);
    lemma_quoted_step(u3, t3, "%22&offset=%22"@, "offset"@, decimal(offset), decimal(offset));
    lemma_quoted_step(
        u4,
        t4,
        "%22&facets=%22"@,
        "facets"@,
        string_arrays(facets),
        encode_text(escape(string_arrays(facets))),
    );
}

/// The address of the search endpoint holds no `?`.
pub proof fn lemma_search_path_holds_no_query()
    ensures
        free_of(search_path(), '?'),
{
    reveal_strlit("https://api.modrinth.com/v2/");
    reveal_strlit("search");
}

/// The URL of a search without pagination is read back from its text, and
/// so is the query: the first parameter read is `query`, and its value is
/// the query.
pub proof fn lemma_search_url_reads_back(query: Seq<char>, sort: Sort, facets: Seq<Seq<Seq<char>>>)
    ensures
        read_url(search_url(query, sort, facets).text()) == search_url(query, sort, facets),
        read_url(search_url(query, sort, facets).text()).pairs[0] == ("query"@, query),
{
    lemma_search_path_holds_no_query();
    lemma_read_url(search_url(query, sort, facets));
}

/// The URL of a search with pagination is read back from its text, and so
/// is the query: the first parameter read is `query`, and its value is a
/// string literal that reads as the query.
pub proof fn lemma_search_paged_url_reads_back(
    query: Seq<char>,
    sort: Sort,
    limit: nat,
    offset: nat,
    facets: Seq<Seq<Seq<char>>>,
)
    ensures
        read_url(search_paged_url(query, sort, limit, offset, facets).text()) == search_paged_url(
            query,
            sort,
            limit,
            offset,
            facets,
        ),
        read_url(search_paged_url(query, sort, limit, offset, facets).text()).pairs[0] == (
            "query"@,
            string_literal(query),
        ),
        parse_string_literal(string_literal(query)) == Some(query),
{
    lemma_search_path_holds_no_query();
    lemma_read_url(search_paged_url(query, sort, limit, offset, facets));
    lemma_parse_string_literal(query);
}

/// The parameter `index` holds the name of the order: as it is in a search
/// without pagination, between quotes in a search with pagination.
pub proof fn lemma_index_is_the_name_of_the_order(
    query: Seq<char>,
    sort: Sort,
    limit: nat,
    offset: nat,
    facets: Seq<Seq<Seq<char>>>,
)
    ensures
        search_url(query, sort, facets).pairs[1] == ("index"@, sort.text()),
        search_paged_url(query, sort, limit, offset, facets).pairs[1] == (
            "index"@,
            seq!['"'] + sort.text() + seq!['"'],
        ),
{
    lemma_sort_text_is_word(sort);
    lemma_word_stands(sort.text());
}

/// The parameters `limit` and `offset` of a search with pagination hold the
/// two numbers in decimal, between quotes.
pub proof fn lemma_limit_and_offset_are_quoted_decimals(
    query: Seq<char>,
    sort: Sort,
    limit: nat,
    offset: nat,
    facets: Seq<Seq<Seq<char>>>,
)
    ensures
        search_paged_url(query, sort, limit, offset, facets).pairs[2] == (
            "limit"@,
            seq!['"'] + decimal(limit) + seq!['"'],
        ),
        search_paged_url(query, sort, limit, offset, facets).pairs[3] == (
            "offset"@,
            seq!['"'] + decimal(offset) + seq!['"'],
        ),
{
    lemma_decimal_is_digits(limit);
    lemma_decimal_is_digits(offset);
    lemma_word_stands(decimal(limit));
    lemma_word_stands(decimal(offset));
}

/// Without facets the parameter `facets` holds an empty array: `[]` in a
/// search without pagination, `"[]"` in a search with pagination.
pub proof fn lemma_no_facets(query: Seq<char>, sort: Sort, limit: nat, offset: nat)
    ensures
        search_url(query, sort, Seq::empty()).pairs[2] == ("facets"@, "[]"@),
        search_paged_url(query, sort, limit, offset, Seq::empty()).pairs[4] == (
            "facets"@,
            "\"[]\""@,
        ),
{
    reveal_strlit("[]");
    reveal_strlit("\"[]\"");
    let none = Seq::<Seq<Seq<char>>>::empty();
    assert(none.map_values(|texts: Seq<Seq<char>>| string_array(texts)) =~= Seq::<
        Seq<char>,
    >::empty());
    assert(string_arrays(none) =~= "[]"@);
    lemma_escape_plain("[]"@);
}

/// Two groups of facets, the first of `a` and `b` and the second of `c`, are
/// written as an array of two arrays: the first holds the string literals
/// for `a` and `b` in this order, the second that for `c`. The parameter
/// `facets` holds this array in a search without pagination. In a search
/// with pagination it holds the string literal for the array, which reads as
/// the array.
pub proof fn lemma_two_groups(
    query: Seq<char>,
    sort: Sort,
    limit: nat,
    offset: nat,
    a: Seq<char>,
    b: Seq<char>,
    c: Seq<char>,
)
    ensures
        ({
            let facets = seq![seq![a, b], seq![c]];
            let array = "[["@ + string_literal(a) + ","@ + string_literal(b) + "],["@
                + string_literal(c) + "]]"@;
            &&& search_url(query, sort, facets).pairs[2] == ("facets"@, array)
            &&& search_paged_url(query, sort, limit, offset, facets).pairs[4] == (
                "facets"@,
                string_literal(array),
            )
            &&& parse_string_literal(string_literal(array)) == Some(array)
        }),
{
    lemma_parse_string_literal(
        "[["@ + string_literal(a) + ","@ + string_literal(b) + "],["@ + string_literal(c) + "]]"@,
    );
    reveal_strlit("[[");
    reveal_strlit(",");
    reveal_strlit("],[");
    reveal_strlit("]]");
    let to_literal = |text: Seq<char>| string_literal(text);
    let to_array = |texts: Seq<Seq<char>>| string_array(texts);
    let first = seq![a, b];
    let second = seq![c];
    assert(first.map_values(to_literal) =~= seq![string_literal(a), string_literal(b)]);
    assert(separated(seq![string_literal(a), string_literal(b)], ',') == string_literal(a) + seq![
        ',',
    ] + string_literal(b)) by {
        reveal_with_fuel(separated, 2);
    }
    let groups = seq![first, second];
    assert(groups.map_values(to_array) =~= seq![string_array(first), string_array(second)]);
    assert(seq![string_array(first), string_array(second)].drop_last() =~= seq![
        string_array(first),
    ]);
    assert(separated(seq![string_array(first), string_array(second)], ',') == string_array(first)
        + seq![','] + string_array(second)) by {
        reveal_with_fuel(separated, 2);
    }
    assert(string_arrays(groups) =~= "[["@ + string_literal(a) + ","@ + string_literal(b) + "],["@
        + string_literal(c) + "]]"@);
}

} // verus!
