//! The client handle: which service domain challenges are fetched from and
//! submitted to. The network calls themselves live outside this library;
//! only the choice of domain is kept here.

use vstd::prelude::*;

verus! {

/// A handle on a challenge service, identified by its domain.
///
/// [`DuckityClient::new`] points at the public service;
/// [`DuckityClient::with_domain`] points at a self-hosted one.
pub struct DuckityClient {
    pub domain: String,
}

impl DuckityClient {
    /// A client for the public service domain.
    pub fn new() -> (r: Self)
        ensures
            r.domain@ == "quack.duckity.dev"@,
    {
        DuckityClient { domain: "quack.duckity.dev".to_owned() }
    }

    /// A client for a custom (for example self-hosted) domain.
    pub fn with_domain(domain: String) -> (r: Self)
        ensures
            r.domain@ == domain@,
    {
        DuckityClient { domain }
    }
}

impl Default for DuckityClient {
    /// Same as [`DuckityClient::new`].
    fn default() -> (r: Self)
        ensures
            r.domain@ == "quack.duckity.dev"@,
    {
        DuckityClient::new()
    }
}

} // verus!
