//! The server's settings and the scheduling decisions taken from them.
use vstd::prelude::*;

verus! {

/// Seconds between two fast passes unless configured otherwise.
pub const DEFAULT_SCRAPE_FAST_INTERVAL: u64 = 3500;

/// Seconds between two full passes unless configured otherwise.
pub const DEFAULT_SCRAPE_FULL_INTERVAL: u64 = 43200;

/// The server's settings.
#[derive(Debug, Clone, PartialEq, Eq)]
pub struct Config {
    pub github_username: String,
    pub github_apitoken: Option<String>,
    pub meilisearch_url: String,
    pub meilisearch_apikey: Option<String>,
    pub skip_initial_scrape: Option<bool>,
    pub scrape_fast_interval_seconds: Option<u64>,
    pub scrape_full_interval_seconds: Option<u64>,
}

impl Config {
    /// Seconds between two fast passes.
    pub fn fast_interval(&self) -> (r: u64)
        ensures
            r == match self.scrape_fast_interval_seconds {
                Some(v) => v,
                None => DEFAULT_SCRAPE_FAST_INTERVAL,
            },
    {
        match self.scrape_fast_interval_seconds {
            Some(v) => v,
            None => DEFAULT_SCRAPE_FAST_INTERVAL,
        }
    }

    /// Seconds between two full passes.
    pub fn full_interval(&self) -> (r: u64)
        ensures
            r == match self.scrape_full_interval_seconds {
                Some(v) => v,
                None => DEFAULT_SCRAPE_FULL_INTERVAL,
            },
    {
        match self.scrape_full_interval_seconds {
            Some(v) => v,
            None => DEFAULT_SCRAPE_FULL_INTERVAL,
        }
    }

    /// Whether a pass runs once at start-up: unless it is explicitly skipped.
    pub fn runs_initial_pass(&self) -> (r: bool)
        ensures
            r == (self.skip_initial_scrape != Some(true)),
    {
        match self.skip_initial_scrape {
            Some(skip) => !skip,
            None => true,
        }
    }
}

/// The rate limit on manually triggered refreshes.
#[derive(Debug, Clone, Copy, PartialEq, Eq, Structural)]
pub struct Refresh;

/// A quota: `burst` requests at most, replenished one per `period_seconds`.
#[derive(Debug, Clone, Copy, PartialEq, Eq, Structural)]
pub struct RefreshQuota {
    pub period_seconds: u64,
    pub burst: u32,
}

impl Refresh {
    /// Five refreshes in a burst, one more every ten minutes.
    pub fn quota() -> (r: RefreshQuota)
        ensures
            r.period_seconds == 600,
            r.burst == 5,
    {
        RefreshQuota { period_seconds: 600, burst: 5 }
    }
}

} // verus!
