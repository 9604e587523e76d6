//! The shapes of the older JSON interface: search results grouped by
//! provider, the server's status, and a page with its links.
use vstd::prelude::*;

use crate::text::{string_of, to_chars};
use crate::types::{OutgoingLink, RoamID, RoamLink, RoamNode};

verus! {

/// One search result.
#[derive(Clone, Debug, PartialEq)]
pub struct SearchResponseElement {
    pub display: String,
    pub id: RoamID,
    pub tags: Vec<String>,
}

/// The results of one search provider.
#[derive(Clone, Debug, PartialEq)]
pub struct SearchResponseProvider {
    pub source: String,
    pub results: Vec<SearchResponseElement>,
}

/// The results of all providers.
#[derive(Clone, Debug, PartialEq)]
pub struct SearchResponse {
    pub providers: Vec<SearchResponseProvider>,
}

/// What changed since the client last asked.
#[derive(Clone, Debug, PartialEq)]
pub struct ServerStatus {
    pub visited_node: Option<RoamID>,
    pub pending_changes: bool,
    pub updated_nodes: Vec<RoamNode>,
    pub updated_links: Vec<RoamLink>,
}

/// A page and its outgoing links.
#[derive(Clone, Debug, PartialEq)]
pub struct OrgAsHTMLResponse {
    pub org: String,
    pub links: Vec<OutgoingLink>,
}

impl OrgAsHTMLResponse {
    /// A page of plain text, without links.
    pub fn simple(text: &str) -> (r: OrgAsHTMLResponse)
        ensures
            r.org@ == text@,
            r.links@.len() == 0,
    {
        OrgAsHTMLResponse { org: string_of(to_chars(text).as_slice()), links: Vec::new() }
    }
}

} // verus!
