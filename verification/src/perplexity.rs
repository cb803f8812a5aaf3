//! The web-search collaborator's data model. Issuing the search request and
//! decoding the provider's reply is the host's business.

use vstd::prelude::*;

verus! {

/// One web search hit.
#[derive(Debug, Clone)]
pub struct SearchResult {
    pub title: String,
    pub url: String,
    pub snippet: String,
}

/// A whole search reply: the hits and the provider's summary answer.
#[derive(Debug, Clone)]
pub struct PerplexitySearchResponse {
    pub results: Vec<SearchResult>,
    pub answer: String,
}

} // verus!
