//! Search parameters and search results.

use crate::structures::Number;
use vstd::prelude::*;
use vstd::string::StringExecFns;

verus! {

/// The order in which results are ranked.
#[derive(Debug, Clone, Copy, PartialEq, Eq, Hash)]
pub enum Sort {
    /// Best match first.
    Relevance,
    /// Most downloaded first.
    Downloads,
    /// Most followed first.
    Follows,
    /// Last created first.
    Newest,
    /// Last updated first.
    Updated,
}

impl Sort {
    /// The name by which the API knows this order.
    pub open spec fn text(self) -> Seq<char> {
        match self {
            Sort::Relevance => "relevance"@,
            Sort::Downloads => "downloads"@,
            Sort::Follows => "follows"@,
            Sort::Newest => "newest"@,
            Sort::Updated => "updated"@,
        }
    }

    /// The name by which the API knows this order.
    pub fn to_string(&self) -> (s: String)
        ensures
            s@ == self.text(),
    {
        match self {
            Sort::Relevance => "relevance".to_owned(),
            Sort::Downloads => "downloads".to_owned(),
            Sort::Follows => "follows".to_owned(),
            Sort::Newest => "newest".to_owned(),
            Sort::Updated => "updated".to_owned(),
        }
    }
}

/// One filter criterion: the named field of a project must hold the value.
#[derive(Debug, Clone, PartialEq, Eq, Hash)]
pub struct Facet {
    /// The name of the field.
    pub field: String,
    /// The value that the field must hold.
    pub value: String,
}

impl Facet {
    /// The criterion as the API reads it: the field, a colon, the value.
    pub open spec fn text(&self) -> Seq<char> {
        self.field@ + seq![':'] + self.value@
    }

    /// The criterion that `field` holds `value`.
    pub fn new(field: &str, value: &str) -> (facet: Facet)
        ensures
            facet.field@ == field@,
            facet.value@ == value@,
    {
        Facet { field: field.to_owned(), value: value.to_owned() }
    }

    /// The criterion as the API reads it: the field, a colon, the value.
    pub fn to_string(&self) -> (s: String)
        ensures
            s@ == self.text(),
    {
        let mut s = self.field.clone();
        s.push(':');
        s.append(self.value.as_str());
        s
    }
}

/// One result record.
#[derive(Debug, Clone, PartialEq, Eq, Hash)]
pub struct SearchHit {
    /// The identifier of the project.
    pub id: String,
}

/// The reply to a search: the hits of one page, and where that page lies in
/// the whole listing.
#[derive(Debug, Clone, PartialEq, Eq, Hash)]
pub struct Response {
    /// The hits, best first in the order asked for.
    pub hits: Vec<SearchHit>,
    /// How many hits were skipped.
    pub offset: Number,
    /// How many hits were asked for at most.
    pub limit: Number,
    /// How many hits there are in all.
    pub total_hits: Number,
}

} // verus!
