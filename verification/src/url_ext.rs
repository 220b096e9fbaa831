//! URLs that grow by path segments and query parameters.

use crate::json::{string_literal, to_string_str};
use crate::percent::{encode_text, form_encode};
use crate::text::{lemma_separated_push, separated};
use crate::CallError;
use vstd::prelude::*;
use vstd::string::StringExecFns;

verus! {

/// What a `RequestUrl` stands for: the text up to the query, and the
/// parameters of the query as they are before any encoding.
pub struct UrlView {
    pub path: Seq<char>,
    pub pairs: Seq<(Seq<char>, Seq<char>)>,
}

impl UrlView {
    /// The URL that is `path` and has no query.
    pub open spec fn new(path: Seq<char>) -> UrlView {
        UrlView { path, pairs: Seq::empty() }
    }

    /// One parameter as it stands in a query: name and value, each encoded,
    /// with `=` between them.
    pub open spec fn pair_text(pair: (Seq<char>, Seq<char>)) -> Seq<char> {
        encode_text(pair.0) + seq!['='] + encode_text(pair.1)
    }

    /// The query: the parameters in order, with `&` between them.
    pub open spec fn query(self) -> Seq<char> {
        separated(self.pairs.map_values(|pair: (Seq<char>, Seq<char>)| Self::pair_text(pair)), '&')
    }

    /// The URL as text. Without parameters it is the path alone; with
    /// parameters, the path, `?` and the query.
    pub open spec fn text(self) -> Seq<char> {
        if self.pairs.len() == 0 {
            self.path
        } else {
            self.path + seq!['?'] + self.query()
        }
    }

    /// This URL with `segments` after its path, `/` between them.
    pub open spec fn join_all(self, segments: Seq<Seq<char>>) -> UrlView {
        UrlView { path: self.path + separated(segments, '/'), pairs: self.pairs }
    }

    /// This URL with one more parameter at the end of its query.
    pub open spec fn with_query(self, name: Seq<char>, value: Seq<char>) -> UrlView {
        UrlView { path: self.path, pairs: self.pairs.push((name, value)) }
    }

    /// This URL with one more parameter whose value is the JSON string
    /// literal for `value`.
    pub open spec fn with_query_json(self, name: Seq<char>, value: Seq<char>) -> UrlView {
        self.with_query(name, string_literal(value))
    }
}

/// One more parameter adds to the text of a URL `?`, where the parameter is
/// the first, or else `&`, and then the parameter.
pub proof fn lemma_with_query_text(url: UrlView, name: Seq<char>, value: Seq<char>)
    ensures
        url.with_query(name, value).text() == url.text() + seq![
            if url.pairs.len() == 0 {
                '?'
            } else {
                '&'
            },
        ] + UrlView::pair_text((name, value)),
{
    let to_text = |pair: (Seq<char>, Seq<char>)| UrlView::pair_text(pair);
    let longer = url.with_query(name, value);
    assert(longer.pairs.map_values(to_text) == url.pairs.map_values(to_text).push(
        UrlView::pair_text((name, value)),
    ));
    lemma_separated_push(url.pairs.map_values(to_text), '&', UrlView::pair_text((name, value)));
    if url.pairs.len() > 0 {
        let query = url.query();
        let pair = UrlView::pair_text((name, value));
        assert(url.path + seq!['?'] + (query + seq!['&'] + pair) == url.path + seq!['?'] + query
            + seq!['&'] + pair);
    }
}

/// A URL under construction.
#[derive(Debug, Clone, PartialEq, Eq)]
pub struct RequestUrl {
    /// The text up to the query.
    pub path: String,
    /// The parameters of the query, not encoded.
    pub pairs: Vec<(String, String)>,
}

impl View for RequestUrl {
    type V = UrlView;

    open spec fn view(&self) -> UrlView {
        UrlView {
            path: self.path@,
            pairs: self.pairs@.map_values(|pair: (String, String)| (pair.0@, pair.1@)),
        }
    }
}

impl RequestUrl {
    /// The URL that is `base` and has no query.
    pub fn new(base: &str) -> (url: RequestUrl)
        ensures
            url@ == UrlView::new(base@),
    {
        let url = RequestUrl { path: base.to_owned(), pairs: Vec::new() };
        assert(url@.pairs == Seq::<(Seq<char>, Seq<char>)>::empty());
        url
    }

    /// Appends the segments to the path, with `/` between them. Each segment
    /// is taken as it is.
    pub fn join_all(self, segments: Vec<&str>) -> (url: RequestUrl)
        ensures
            url@ == self@.join_all(segments@.map_values(|segment: &str| segment@)),
    {
        let ghost texts = segments@.map_values(|segment: &str| segment@);
        let mut url = self;
        let mut tail = String::new();
        let mut i: usize = 0;
        while i < segments.len()
            invariant
                i <= segments@.len(),
                texts == segments@.map_values(|segment: &str| segment@),
                tail@ == separated(texts.take(i as int), '/'),
            decreases segments@.len() - i,
        {
            proof {
                assert(texts.take(i + 1) == texts.take(i as int).push(texts[i as int]));
                lemma_separated_push(texts.take(i as int), '/', texts[i as int]);
            }
            if i > 0 {
                tail.push('/');
            }
            tail.append(segments[i]);
            i += 1;
        }
        assert(texts.take(i as int) == texts);
        url.path.append(tail.as_str());
        url
    }

    /// Adds the parameter `name` with the value as it is given.
    pub fn with_query(self, name: &str, value: &str) -> (url: RequestUrl)
        ensures
            url@ == self@.with_query(name@, value@),
    {
        let mut url = self;
        url.pairs.push((name.to_owned(), value.to_owned()));
        assert(url@.pairs == self@.pairs.push((name@, value@)));
        url
    }

    /// Adds the parameter `name` with the JSON string literal for `value` as
    /// its value.
    pub fn with_query_json(self, name: &str, value: &str) -> (r: Result<RequestUrl, CallError>)
        ensures
            r is Ok,
            r->Ok_0@ == self@.with_query_json(name@, value@),
    {
        match to_string_str(value) {
            Ok(literal) => Ok(self.with_query(name, literal.as_str())),
            Err(error) => Err(CallError::serialization(&error)),
        }
    }

    /// The URL as text, with the names and values of its query encoded.
    pub fn to_string(&self) -> (s: String)
        ensures
            s@ == self@.text(),
    {
        let ghost texts = self@.pairs.map_values(
            |pair: (Seq<char>, Seq<char>)| UrlView::pair_text(pair),
        );
        let mut s = self.path.clone();
        let mut i: usize = 0;
        while i < self.pairs.len()
            invariant
                i <= self.pairs@.len(),
                texts == self@.pairs.map_values(
                    |pair: (Seq<char>, Seq<char>)| UrlView::pair_text(pair),
                ),
                s@ == if i == 0 {
                    self.path@
                } else {
                    self.path@ + seq!['?'] + separated(texts.take(i as int), '&')
                },
            decreases self.pairs@.len() - i,
        {
            let name = form_encode(self.pairs[i].0.as_str());
            let value = form_encode(self.pairs[i].1.as_str());
            proof {
                assert(texts.take(i + 1) == texts.take(i as int).push(texts[i as int]));
                lemma_separated_push(texts.take(i as int), '&', texts[i as int]);
            }
            if i == 0 {
                s.push('?');
            } else {
                s.push('&');
            }
            s.append(name.as_str());
            s.push('=');
            s.append(value.as_str());
            i += 1;
        }
        assert(texts.take(i as int) == texts);
        s
    }
}

} // verus!
