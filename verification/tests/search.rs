use ferinth::api_calls::search::facets_json;
use ferinth::request::Method;
use ferinth::structures::search::{Facet, Sort};
use ferinth::url_ext::RequestUrl;
use ferinth::{Ferinth, API_BASE_URL};

fn paged(query: &str, sort: Sort, limit: usize, offset: usize, facets: &[&[Facet]]) -> RequestUrl {
    Ferinth::default().search_paged(query, &sort, &limit, &offset, facets).unwrap().url
}

fn simple(query: &str, sort: Sort, facets: &[&[Facet]]) -> RequestUrl {
    Ferinth::default().search(query, &sort, facets).unwrap().url
}

fn pair(name: &str, value: &str) -> (String, String) {
    (name.to_string(), value.to_string())
}

/// The same URL, put together by the `url` crate.
fn by_url_crate(pairs: &[(String, String)]) -> String {
    let mut url = url::Url::parse(API_BASE_URL).unwrap().join("search").unwrap();
    for (name, value) in pairs {
        url.query_pairs_mut().append_pair(name, value);
    }
    url.as_str().to_string()
}

fn decoded_pairs(text: &str) -> Vec<(String, String)> {
    let url = url::Url::parse(text).unwrap();
    url.query_pairs().map(|(name, value)| (name.into_owned(), value.into_owned())).collect()
}

#[test]
fn both_searches_are_get_requests() {
    let ferinth = Ferinth::default();
    assert_eq!(ferinth.search("sodium", &Sort::Relevance, &[]).unwrap().method, Method::Get);
    assert_eq!(
        ferinth.search_paged("sodium", &Sort::Relevance, &10, &0, &[]).unwrap().method,
        Method::Get
    );
}

#[test]
fn paged_search_for_sodium() {
    let url = paged("sodium", Sort::Relevance, 10, 0, &[]);
    assert_eq!(
        url.to_string(),
        "https://api.modrinth.com/v2/search?query=%22sodium%22&index=%22relevance%22&limit=%2210%22&offset=%220%22&facets=%22%5B%5D%22"
    );
}

#[test]
fn simple_search_for_sodium() {
    let url = simple("sodium", Sort::Relevance, &[]);
    assert_eq!(
        url.to_string(),
        "https://api.modrinth.com/v2/search?query=sodium&index=relevance&facets=%5B%5D"
    );
}

#[test]
fn paged_search_has_five_json_parameters() {
    let url = paged("sodium", Sort::Downloads, 25, 50, &[]);
    assert_eq!(url.path, "https://api.modrinth.com/v2/search");
    assert_eq!(
        url.pairs,
        vec![
            pair("query", "\"sodium\""),
            pair("index", "\"downloads\""),
            pair("limit", "\"25\""),
            pair("offset", "\"50\""),
            pair("facets", "\"[]\""),
        ]
    );
}

#[test]
fn simple_search_has_three_plain_parameters() {
    let url = simple("sodium", Sort::Downloads, &[]);
    assert_eq!(url.path, "https://api.modrinth.com/v2/search");
    assert_eq!(
        url.pairs,
        vec![pair("query", "sodium"), pair("index", "downloads"), pair("facets", "[]")]
    );
}

#[test]
fn the_two_searches_encode_query_and_index_differently() {
    let with_pages = paged("fabric api", Sort::Newest, 1, 2, &[]);
    let without = simple("fabric api", Sort::Newest, &[]);
    assert_eq!(with_pages.pairs[0].1, "\"fabric api\"");
    assert_eq!(without.pairs[0].1, "fabric api");
    assert_eq!(with_pages.pairs[1].1, "\"newest\"");
    assert_eq!(without.pairs[1].1, "newest");
}

#[test]
fn index_is_the_name_of_the_order() {
    let orders = [
        (Sort::Relevance, "relevance"),
        (Sort::Downloads, "downloads"),
        (Sort::Follows, "follows"),
        (Sort::Newest, "newest"),
        (Sort::Updated, "updated"),
    ];
    for (sort, name) in orders {
        assert_eq!(sort.to_string(), name);
        assert_eq!(simple("x", sort, &[]).pairs[1], pair("index", name));
        assert_eq!(paged("x", sort, 0, 0, &[]).pairs[1], pair("index", &format!("\"{}\"", name)));
    }
}

#[test]
fn limit_and_offset_are_quoted_decimals() {
    let cases: [(usize, &str); 6] = [
        (0, "\"0\""),
        (9, "\"9\""),
        (10, "\"10\""),
        (100, "\"100\""),
        (12345, "\"12345\""),
        (4294967295, "\"4294967295\""),
    ];
    for (number, text) in cases {
        let url = paged("x", Sort::Relevance, number, number, &[]);
        assert_eq!(url.pairs[2], pair("limit", text));
        assert_eq!(url.pairs[3], pair("offset", text));
    }
    let url = paged("x", Sort::Relevance, usize::MAX, 7, &[]);
    assert_eq!(url.pairs[2].1, format!("\"{}\"", usize::MAX));
    assert_eq!(url.pairs[3].1, "\"7\"");
}

#[test]
fn empty_facets_are_an_empty_array() {
    assert_eq!(paged("x", Sort::Relevance, 1, 0, &[]).pairs[4], pair("facets", "\"[]\""));
    assert_eq!(simple("x", Sort::Relevance, &[]).pairs[2], pair("facets", "[]"));
}

#[test]
fn an_empty_group_is_an_empty_inner_array() {
    let none: &[Facet] = &[];
    assert_eq!(simple("x", Sort::Relevance, &[none]).pairs[2].1, "[[]]");
    assert_eq!(simple("x", Sort::Relevance, &[none, none]).pairs[2].1, "[[],[]]");
}

#[test]
fn facets_keep_their_groups_and_their_order() {
    let a = Facet::new("categories", "fabric");
    let b = Facet::new("categories", "forge");
    let c = Facet::new("versions", "1.20.1");
    let first = [a.clone(), b.clone()];
    let second = [c.clone()];
    let facets: [&[Facet]; 2] = [&first, &second];

    let plain = simple("x", Sort::Relevance, &facets).pairs[2].1.clone();
    assert_eq!(plain, "[[\"categories:fabric\",\"categories:forge\"],[\"versions:1.20.1\"]]");
    let groups: Vec<Vec<String>> = serde_json::from_str(&plain).unwrap();
    assert_eq!(groups.len(), 2);
    assert_eq!(groups[0], vec![a.to_string(), b.to_string()]);
    assert_eq!(groups[1], vec![c.to_string()]);

    let quoted = paged("x", Sort::Relevance, 1, 0, &facets).pairs[4].1.clone();
    let inner: String = serde_json::from_str(&quoted).unwrap();
    assert_eq!(inner, plain);
    assert_eq!(
        quoted,
        "\"[[\\\"categories:fabric\\\",\\\"categories:forge\\\"],[\\\"versions:1.20.1\\\"]]\""
    );
}

#[test]
fn facets_are_written_as_serde_json_writes_them() {
    let odd = Facet::new("title", "a \"b\" \\ c\n\u{1}\u{7f}é😀");
    let plain_one = Facet::new("license", "mit");
    let first = [odd.clone(), plain_one.clone()];
    let second = [plain_one.clone(), odd.clone(), odd.clone()];
    let third: [Facet; 0] = [];
    let facets: [&[Facet]; 3] = [&first, &third, &second];
    let texts: Vec<Vec<String>> =
        facets.iter().map(|group| group.iter().map(|facet| facet.to_string()).collect()).collect();
    let expected = serde_json::to_string(&texts).unwrap();
    assert_eq!(simple("x", Sort::Relevance, &facets).pairs[2].1, expected);
    assert_eq!(
        paged("x", Sort::Relevance, 1, 0, &facets).pairs[4].1,
        serde_json::to_string(&expected).unwrap()
    );
}

#[test]
fn a_query_with_special_characters_decodes_to_itself() {
    let queries = [
        "fabric api",
        "say \"hello\"",
        "a+b=c&d",
        "100%",
        "back\\slash",
        "tab\there\nnewline",
        "caf\u{e9} na\u{ef}ve \u{4e2d}\u{6587} \u{1f600}",
        "\u{0}\u{1}\u{1f}\u{7f}",
        "",
        "~!*'();:@$,/?#[]",
    ];
    for query in queries {
        let plain = simple(query, Sort::Relevance, &[]);
        let text = plain.to_string();
        assert!(text.is_ascii());
        let pairs = decoded_pairs(&text);
        assert_eq!(pairs, plain.pairs);
        assert_eq!(pairs[0], pair("query", query));

        let quoted = paged(query, Sort::Relevance, 3, 4, &[]);
        let text = quoted.to_string();
        assert!(text.is_ascii());
        let pairs = decoded_pairs(&text);
        assert_eq!(pairs, quoted.pairs);
        assert_eq!(pairs[0].0, "query");
        let back: String = serde_json::from_str(&pairs[0].1).unwrap();
        assert_eq!(back, query);
    }
}

#[test]
fn the_text_of_a_search_is_what_the_url_crate_writes() {
    let a = Facet::new("categories", "world gen");
    let group = [a];
    let facets: [&[Facet]; 1] = [&group];
    let queries = ["sodium", "fabric api", "a\"b", "x&y=z", "\u{e9}\u{1f600}", "", "50%+"];
    for query in queries {
        let plain = simple(query, Sort::Follows, &facets);
        assert_eq!(plain.to_string(), by_url_crate(&plain.pairs));
        let quoted = paged(query, Sort::Updated, 20, 40, &facets);
        assert_eq!(quoted.to_string(), by_url_crate(&quoted.pairs));
    }
}

#[test]
fn escapes_in_a_quoted_query() {
    let url = paged("a\"b\\c\u{8}\u{c}\n\r\t\u{1}\u{1f}/\u{7f}", Sort::Relevance, 1, 0, &[]);
    assert_eq!(url.pairs[0].1, "\"a\\\"b\\\\c\\b\\f\\n\\r\\t\\u0001\\u001f/\u{7f}\"");
    assert!(url.to_string().starts_with(
        "https://api.modrinth.com/v2/search?query=%22a%5C%22b%5C%5Cc%5Cb%5Cf%5Cn%5Cr%5Ct%5Cu0001%5Cu001f%2F%7F%22&index="
    ));
}

#[test]
fn facets_are_written_in_two_steps() {
    let a = Facet::new("categories", "fabric");
    let b = Facet::new("license", "mit");
    let first = [a];
    let second = [b];
    let facets: [&[Facet]; 2] = [&first, &second];
    let array = facets_json(&facets).unwrap();
    assert_eq!(array, "[[\"categories:fabric\"],[\"license:mit\"]]");
    assert_eq!(simple("x", Sort::Relevance, &facets).pairs[2].1, array);
    let literal = RequestUrl::new("").with_query_json("facets", &array).unwrap().pairs[0].1.clone();
    assert_eq!(literal, "\"[[\\\"categories:fabric\\\"],[\\\"license:mit\\\"]]\"");
    assert_eq!(paged("x", Sort::Relevance, 1, 0, &facets).pairs[4].1, literal);
}

#[test]
fn no_facets_are_an_empty_array_of_groups() {
    assert_eq!(facets_json(&[]).unwrap(), "[]");
}

#[test]
fn a_facet_is_its_field_a_colon_and_its_value() {
    let facet = Facet::new("categories", "worldgen");
    assert_eq!(facet.field, "categories");
    assert_eq!(facet.value, "worldgen");
    assert_eq!(facet.to_string(), "categories:worldgen");
    assert_eq!(Facet::new("", "").to_string(), ":");
    assert_eq!(Facet::new("a:b", "c").to_string(), "a:b:c");
}

#[test]
fn every_call_starts_from_the_same_entry_point() {
    assert_eq!(Ferinth::default(), Ferinth {});
    assert_eq!(API_BASE_URL, "https://api.modrinth.com/v2/");
}
