//! Full-text search results: the envelope around the rows that the
//! database ranked, and how a combined search shares its row limit.
use vstd::prelude::*;
use vstd::string::StringExecFns;

verus! {

/// Rows found for a query, with their count and the time taken.
#[derive(Clone, Debug)]
pub struct SearchResult<T> {
    pub results: Vec<T>,
    pub total_count: usize,
    pub query: String,
    pub search_time_ms: u128,
}

/// A search term and the terms that also match it.
#[derive(Clone, Debug)]
pub struct Synonym {
    pub term: String,
    pub synonyms: Vec<String>,
}

impl<T> SearchResult<T> {
    /// The envelope of `results` found for `query` in `search_time_ms`.
    pub fn new(results: Vec<T>, query: &str, search_time_ms: u128) -> (r: Self)
        ensures
            r.results@ == results@,
            r.total_count == results@.len(),
            r.query@ == query@,
            r.search_time_ms == search_time_ms,
    {
        let total_count = results.len();
        SearchResult { results, total_count, query: String::from_str(query), search_time_ms }
    }
}

/// The row limit of each part of a combined search: a third of the whole,
/// rounded toward zero.
pub open spec fn part_limit_spec(limit: i32) -> int {
    if limit >= 0 { limit / 3 } else { -((-limit) / 3) }
}

/// A third of `limit`, rounded toward zero, as `limit / 3` on `i32`.
pub fn part_limit(limit: i32) -> (r: i32)
    ensures
        r == part_limit_spec(limit),
{
    limit / 3
}

} // verus!
