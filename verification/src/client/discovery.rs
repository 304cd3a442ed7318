//! The client of a discovery service.

use vstd::prelude::*;

verus! {

/// A discovery service at a base URL.
pub struct DiscoveryClient {
    _base_url: String,
}

impl DiscoveryClient {
    /// The base URL of the service.
    pub closed spec fn url(&self) -> Seq<char> {
        self._base_url@
    }

    /// A client of the service at `base_url`.
    pub fn new(base_url: String) -> (c: Self)
        ensures
            c.url() == base_url@,
    {
        DiscoveryClient { _base_url: base_url }
    }

    /// The base URL of the service.
    pub fn base_url(&self) -> (u: &str)
        ensures
            u@ == self.url(),
    {
        self._base_url.as_str()
    }
}

} // verus!
