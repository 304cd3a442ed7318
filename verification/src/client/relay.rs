//! The client of a relay service.

use vstd::prelude::*;

verus! {

/// A relay service at a base URL.
pub struct RelayClient {
    _base_url: String,
}

impl RelayClient {
    /// The base URL of the service.
    pub closed spec fn url(&self) -> Seq<char> {
        self._base_url@
    }

    /// A client of the service at `base_url`.
    pub fn new(base_url: String) -> (c: Self)
        ensures
            c.url() == base_url@,
    {
        RelayClient { _base_url: base_url }
    }

    /// The base URL of the service.
    pub fn base_url(&self) -> (u: &str)
        ensures
            u@ == self.url(),
    {
        self._base_url.as_str()
    }
}

} // verus!
