//! The parameters of the REST interface (the `serve` mode).

use vstd::prelude::*;

verus! {

/// The parameters of `GET /search`: the query and the page of results.
pub struct SearchParams {
    /// The text searched
    pub q: String,
    /// The page of results, from 1 (1 when the request gives none)
    pub page: u32,
}

/// The page of results of a search request that names none: the first.
pub fn default_page() -> (r: u32)
    ensures
        r == 1,
{
    1
}

} // verus!
