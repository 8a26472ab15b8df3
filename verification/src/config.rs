//! The fixed settings of the service.
use vstd::prelude::*;

verus! {

/// Timeouts, hit caps, cache lifetime and user agent. Durations are in
/// whole seconds.
#[derive(Debug, Clone)]
pub struct Config {
    pub user_agent: &'static str,
    pub http_timeout_secs: u64,
    pub cache_ttl_secs: u64,
    pub max_hits: usize,
    pub soundcloud_max_hits: usize,
}

impl Config {
    /// The service's settings.
    pub fn new() -> (c: Self)
        ensures
            c.user_agent@ == "Mozilla/5.0 (X11; Linux x86_64; rv:120.0) Gecko/20100101 Firefox/120.0"@,
            c.http_timeout_secs == 10,
            c.cache_ttl_secs == 300,
            c.max_hits == 20,
            c.soundcloud_max_hits == 5,
    {
        Config {
            user_agent: "Mozilla/5.0 (X11; Linux x86_64; rv:120.0) Gecko/20100101 Firefox/120.0",
            http_timeout_secs: 10,
            cache_ttl_secs: 300,
            max_hits: 20,
            soundcloud_max_hits: 5,
        }
    }
}

} // verus!
