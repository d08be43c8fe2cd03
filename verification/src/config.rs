//! Base client configuration.
use crate::text::owned;
use vstd::prelude::*;
use vstd::string::*;

verus! {

/// Base client configuration.
#[derive(Debug)]
pub struct Config {
    /// Base URL of the default relay, e.g. `http://localhost:8080`.
    pub relay_url: String,
    /// Default `limit` used in scan requests (MIP-03 default is 20).
    pub default_limit: u32,
}

impl Clone for Config {
    /// A copy of the configuration.
    fn clone(&self) -> (res: Self)
        ensures
            res.relay_url@ == self.relay_url@,
            res.default_limit == self.default_limit,
    {
        Config { relay_url: self.relay_url.clone(), default_limit: self.default_limit }
    }
}

impl Default for Config {
    fn default() -> (res: Self)
        ensures
            res.relay_url@ == "http://localhost:8080"@,
            res.default_limit == 20,
    {
        Config { relay_url: owned("http://localhost:8080"), default_limit: 20 }
    }
}

impl Config {
    /// A configuration for the given relay, with the default scan limit.
    pub fn new(relay_url: &str) -> (res: Self)
        ensures
            res.relay_url@ == relay_url@,
            res.default_limit == 20,
    {
        Config { relay_url: owned(relay_url), ..Self::default() }
    }
}

} // verus!
