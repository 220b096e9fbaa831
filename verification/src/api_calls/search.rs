//! The search endpoint: which request a search is made by.

use crate::json::{string_arrays, string_literal, texts_of, to_string_groups};
use crate::request::Request;
use crate::structures::search::{Facet, Sort};
use crate::structures::Number;
use crate::text::{decimal, decimal_string};
use crate::url_ext::{RequestUrl, UrlView};
use crate::{CallError, Ferinth, API_BASE_URL};
use vstd::prelude::*;

verus! {

/// The facets as the texts that the API reads: group by group, in order.
pub open spec fn facet_texts(facets: Seq<&[Facet]>) -> Seq<Seq<Seq<char>>> {
    facets.map_values(|group: &[Facet]| group@.map_values(|facet: Facet| facet.text()))
}

/// The address of the search endpoint.
pub open spec fn search_path() -> Seq<char> {
    API_BASE_URL@ + "search"@
}

/// The URL of a search with pagination. All five values are JSON string
/// literals; that of `facets` is the literal for the text of a JSON array of
/// arrays of strings.
pub open spec fn search_paged_url(
    query: Seq<char>,
    sort: Sort,
    limit: nat,
    offset: nat,
    facets: Seq<Seq<Seq<char>>>,
) -> UrlView {
    UrlView {
        path: search_path(),
        pairs: seq![
            ("query"@, string_literal(query)),
            ("index"@, string_literal(sort.text())),
            ("limit"@, string_literal(decimal(limit))),
            ("offset"@, string_literal(decimal(offset))),
            ("facets"@, string_literal(string_arrays(facets))),
        ],
    }
}

/// The URL of a search without pagination. The query and the name of the
/// order stand as they are; the facets are a JSON array of arrays of strings.
pub open spec fn search_url(query: Seq<char>, sort: Sort, facets: Seq<Seq<Seq<char>>>) -> UrlView {
    UrlView {
        path: search_path(),
        pairs: seq![
            ("query"@, query),
            ("index"@, sort.text()),
            ("facets"@, string_arrays(facets)),
        ],
    }
}

/// The texts of the facets of one group.
fn group_strings(group: &[Facet]) -> (texts: Vec<String>)
    ensures
        texts@.map_values(|text: String| text@) == group@.map_values(|facet: Facet| facet.text()),
{
    let mut texts: Vec<String> = Vec::new();
    let mut j: usize = 0;
    while j < group.len()
        invariant
            j <= group@.len(),
            texts@.len() == j,
            forall|k: int| 0 <= k < j ==> (#[trigger] texts@[k])@ == group@[k].text(),
        decreases group@.len() - j,
    {
        texts.push(group[j].to_string());
        j += 1;
    }
    assert(texts@.map_values(|text: String| text@) =~= group@.map_values(
        |facet: Facet| facet.text(),
    ));
    texts
}

/// The texts of the facets, group by group.
fn facet_strings(facets: &[&[Facet]]) -> (groups: Vec<Vec<String>>)
    ensures
        texts_of(groups@) == facet_texts(facets@),
{
    let mut groups: Vec<Vec<String>> = Vec::new();
    let mut i: usize = 0;
    while i < facets.len()
        invariant
            i <= facets@.len(),
            groups@.len() == i,
            forall|k: int|
                0 <= k < i ==> (#[trigger] groups@[k])@.map_values(|text: String| text@)
                    == facets@[k]@.map_values(|facet: Facet| facet.text()),
        decreases facets@.len() - i,
    {
        groups.push(group_strings(facets[i]));
        i += 1;
    }
    groups
}

/// The JSON text for the facets: an array with one array for each group,
/// which holds the texts of the facets of the group as strings.
pub fn facets_json(facets: &[&[Facet]]) -> (r: Result<String, CallError>)
    ensures
        r is Ok,
        r->Ok_0@ == string_arrays(facet_texts(facets@)),
{
    let groups = facet_strings(facets);
    match to_string_groups(&groups) {
        Ok(text) => Ok(text),
        Err(error) => Err(CallError::serialization(&error)),
    }
}

/// The URL of the search endpoint, without a query.
fn search_endpoint() -> (url: RequestUrl)
    ensures
        url@ == UrlView::new(search_path()),
{
    let segments = vec!["search"];
    RequestUrl::new(API_BASE_URL).join_all(segments)
}

impl Ferinth {
    /// The request for the projects that match `query`, one page of them.
    ///
    /// The page holds at most `limit` projects and starts after the first
    /// `offset`. The projects are ranked by `sort` and must meet `facets`: of
    /// each group at least one.
    pub fn search_paged(
        &self,
        query: &str,
        sort: &Sort,
        limit: &Number,
        offset: &Number,
        facets: &[&[Facet]],
    ) -> (r: Result<Request, CallError>)
        ensures
            r is Ok,
            r->Ok_0.method is Get,
            r->Ok_0.url@ == search_paged_url(
                query@,
                *sort,
                *limit as nat,
                *offset as nat,
                facet_texts(facets@),
            ),
    {
        let url = search_endpoint()
            .with_query_json("query", query)?
            .with_query_json("index", sort.to_string().as_str())?
            .with_query_json("limit", decimal_string(*limit).as_str())?
            .with_query_json("offset", decimal_string(*offset).as_str())?
            .with_query_json("facets", facets_json(facets)?.as_str())?;
        assert(url@.pairs =~= search_paged_url(
            query@,
            *sort,
            *limit as nat,
            *offset as nat,
            facet_texts(facets@),
        ).pairs);
        Ok(Request::get(url))
    }

    /// The request for the projects that match `query`.
    ///
    /// The projects are ranked by `sort` and must meet `facets`: of each group
    /// at least one.
    pub fn search(&self, query: &str, sort: &Sort, facets: &[&[Facet]]) -> (r: Result<
        Request,
        CallError,
    >)
        ensures
            r is Ok,
            r->Ok_0.method is Get,
            r->Ok_0.url@ == search_url(query@, *sort, facet_texts(facets@)),
    {
        let url = search_endpoint()
            .with_query("query", query)
            .with_query("index", sort.to_string().as_str())
            .with_query("facets", facets_json(facets)?.as_str());
        assert(url@.pairs =~= search_url(query@, *sort, facet_texts(facets@)).pairs);
        Ok(Request::get(url))
    }
}

} // verus!
