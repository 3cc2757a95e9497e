//! The parameters of history queries. The history itself lives in a SQLite
//! database handled by the caller.
use vstd::prelude::*;

use crate::text::owned;

verus! {

/// Entries per page when the caller does not say.
pub const DEFAULT_PAGE_SIZE: usize = 50;

/// The page size and offset requested, with 50 and 0 for what was not given.
pub fn page_request(limit: Option<usize>, offset: Option<usize>) -> (r: (usize, usize))
    ensures
        r.0 == (match limit {
            Some(l) => l,
            None => DEFAULT_PAGE_SIZE,
        }),
        r.1 == (match offset {
            Some(o) => o,
            None => 0,
        }),
{
    let l = match limit {
        Some(l) => l,
        None => DEFAULT_PAGE_SIZE,
    };
    let o = match offset {
        Some(o) => o,
        None => 0,
    };
    (l, o)
}

/// The page size sent to the database: between 1 and 200.
pub fn page_limit(limit: usize) -> (r: i64)
    ensures
        r == (if limit < 1 {
            1
        } else if limit > 200 {
            200
        } else {
            limit as int
        }),
{
    let c: usize = if limit < 1 {
        1
    } else if limit > 200 {
        200
    } else {
        limit
    };
    c as i64
}

/// The offset sent to the database, as a signed 64-bit value.
pub fn page_offset(offset: usize) -> (r: i64)
    ensures
        r == offset as i64,
{
    offset as i64
}

/// The `LIKE` pattern for a search: the query between two `%`, or none for
/// an absent or empty query (which lists everything).
pub open spec fn search_pattern_spec(query: Option<Seq<char>>) -> Option<Seq<char>> {
    match query {
        Some(q) => if q.len() > 0 {
            Some("%"@ + q + "%"@)
        } else {
            None
        },
        None => None,
    }
}

/// A non-empty query gives a pattern two characters longer than the query
/// that starts and ends with `%` and holds the query, unchanged and in one
/// piece, in between; an absent or empty query gives no pattern.
pub proof fn law_search_pattern_wraps_query(query: Option<Seq<char>>)
    ensures
        match query {
            Some(q) => if q.len() > 0 {
                search_pattern_spec(query) matches Some(p) && {
                    &&& p.len() == q.len() + 2
                    &&& p[0] == '%'
                    &&& p[p.len() - 1] == '%'
                    &&& forall|i: int| 0 <= i < q.len() ==> p[i + 1] == q[i]
                }
            } else {
                search_pattern_spec(query) is None
            },
            None => search_pattern_spec(query) is None,
        },
{
    reveal_strlit("%");
}

/// Builds the search pattern.
pub fn search_pattern(query: Option<&str>) -> (r: Option<String>)
    ensures
        match r {
            Some(p) => search_pattern_spec(crate::settings::opt_view(query)) == Some(p@),
            None => search_pattern_spec(crate::settings::opt_view(query)) is None,
        },
{
    match query {
        Some(q) => {
            if q.is_empty() {
                None
            } else {
                let mut p = owned("%");
                p.append(q);
                p.append("%");
                Some(p)
            }
        },
        None => None,
    }
}

} // verus!
