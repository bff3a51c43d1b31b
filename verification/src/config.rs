//! The front end's fixed configuration.

use vstd::prelude::*;

verus! {

/// Where the front end reaches the service's interface.
#[derive(Debug, Clone)]
pub struct Config {
    /// The path every request is rooted under.
    pub api_base_url: &'static str,
}

impl Config {
    /// The default configuration.
    pub fn new() -> (r: Config)
        ensures
            r.api_base_url@ == "/api"@,
    {
        Config { api_base_url: "/api" }
    }
}

} // verus!
