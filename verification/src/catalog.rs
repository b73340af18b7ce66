//! Catalog listing data and the product list filter.
//!
//! The filter is a predicate over plain values — category equality and
//! substring search on the name — evaluated row by row. Filter text is
//! data here, never spliced into a query string.

use vstd::prelude::*;
use vstd::string::StrSliceExecFns;
use crate::store::spec_opt_text;

verus! {

/// A catalog category row.
pub struct Category {
    pub id: String,
    pub name: String,
}

/// The list filter a catalog query carries: an optional category and an
/// optional search text.
pub struct ProductFilter {
    pub category_id: Option<String>,
    pub search: Option<String>,
}

/// The pattern occurs in the text starting at position `i`.
pub open spec fn spec_match_at(text: Seq<char>, pattern: Seq<char>, i: int) -> bool {
    &&& 0 <= i
    &&& i + pattern.len() <= text.len()
    &&& forall|j: int| 0 <= j < pattern.len() ==> text[i + j] == pattern[j]
}

/// The pattern occurs somewhere in the text.
pub open spec fn spec_contains(text: Seq<char>, pattern: Seq<char>) -> bool {
    exists|i: int| spec_match_at(text, pattern, i)
}

/// Whether the pattern occurs at one given position.
fn match_at(text: &str, pattern: &str, i: usize) -> (r: bool)
    requires
        i + pattern@.len() <= text@.len(),
        text@.len() <= usize::MAX,
    ensures
        r == spec_match_at(text@, pattern@, i as int),
{
    let m = pattern.unicode_len();
    let mut j: usize = 0;
    while j < m
        invariant
            0 <= j <= m,
            m == pattern@.len(),
            i + m <= text@.len(),
            text@.len() <= usize::MAX,
            forall|b: int| 0 <= b < j ==> text@[i + b] == pattern@[b],
        decreases m - j,
    {
        if text.get_char(i + j) != pattern.get_char(j) {
            proof {
                assert(text@[i + j] != pattern@[j as int]);
            }
            return false;
        }
        j = j + 1;
    }
    true
}

/// Whether the text contains the pattern, the `LIKE '%...%'` test as a
/// verified scan.
pub fn contains_str(text: &str, pattern: &str) -> (r: bool)
    ensures
        r == spec_contains(text@, pattern@),
{
    let n = text.unicode_len();
    let m = pattern.unicode_len();
    if m > n {
        return false;
    }
    let mut i: usize = 0;
    while i <= n - m
        invariant
            0 <= i <= n - m + 1,
            m <= n,
            n == text@.len(),
            m == pattern@.len(),
            forall|a: int| 0 <= a < i ==> !spec_match_at(text@, pattern@, a),
        decreases n - m + 1 - i,
    {
        if match_at(text, pattern, i) {
            return true;
        }
        i = i + 1;
    }
    proof {
        assert forall|a: int| !spec_match_at(text@, pattern@, a) by {
            if 0 <= a < i {
            }
        }
    }
    false
}

/// Whether a catalog row passes the filter: the category must equal the
/// requested one unless none or `all` is requested, and the name must
/// contain the search text unless none is given.
pub open spec fn spec_matches_filter(
    category_id: Seq<char>,
    name: Seq<char>,
    filter_category: Option<Seq<char>>,
    filter_search: Option<Seq<char>>,
) -> bool {
    &&& match filter_category {
        Some(c) => c == "all"@ || category_id == c,
        None => true,
    }
    &&& match filter_search {
        Some(q) => spec_contains(name, q),
        None => true,
    }
}

/// Applies the list filter to one catalog row's category and name.
pub fn product_matches_filter(category_id: &str, name: &str, filter: &ProductFilter) -> (r: bool)
    ensures
        r == spec_matches_filter(
            category_id@,
            name@,
            spec_opt_text(filter.category_id),
            spec_opt_text(filter.search),
        ),
{
    let category_ok = match &filter.category_id {
        Some(c) => crate::settings::str_eq(c.as_str(), "all") || crate::settings::str_eq(
            category_id,
            c.as_str(),
        ),
        None => true,
    };
    if !category_ok {
        return false;
    }
    match &filter.search {
        Some(q) => contains_str(name, q.as_str()),
        None => true,
    }
}

} // verus!
