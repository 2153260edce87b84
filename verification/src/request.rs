//! Search requests as the service hands them to a query engine.

use vstd::prelude::*;
use crate::config::Settings;

verus! {

/// The order in which hits are wanted.
#[derive(Debug, Clone, Copy, PartialEq, Eq, Structural)]
pub enum SortMode {
    Relevance,
    Name,
    Path,
    Date,
    Size,
}

/// One search: who asked, for what, in which order, and how many hits at most.
#[derive(Debug)]
pub struct SearchRequest {
    pub request_id: String,
    pub query: String,
    pub sort: SortMode,
    pub limit: usize,
}

/// The number of hits that a request made by the service asks for.
pub const DEFAULT_REQUEST_LIMIT: usize = 500;

/// The front door of the application: it holds the settings and turns a
/// query into a request.
pub struct AppService {
    pub settings: Settings,
}

impl Default for AppService {
    fn default() -> (r: Self)
        ensures
            r.settings.is_default(),
    {
        AppService { settings: Settings::default() }
    }
}

impl AppService {
    /// The request for a query: sorted by relevance, limited to 500 hits,
    /// with the query and the request's id handed through unchanged.
    pub fn start_search(&self, query: String, request_id: String) -> (r: SearchRequest)
        ensures
            r.request_id@ == request_id@,
            r.query@ == query@,
            r.sort == SortMode::Relevance,
            r.limit == 500,
    {
        SearchRequest { request_id, query, sort: SortMode::Relevance, limit: DEFAULT_REQUEST_LIMIT }
    }
}

} // verus!
