//! Crawler settings.
use vstd::prelude::*;

verus! {

/// Crawler settings, read from the environment by the program around the library.
pub struct Config {
    /// Location of the SQLite database.
    pub database_url: String,
    /// Bearer credential of the remote API.
    pub twitter_bearer_token: String,
    /// Hours between two cycles.
    pub crawl_interval_hours: u32,
    /// How far back a first crawl reaches, in days.
    pub history_depth_days: u32,
    /// Calls allowed per rate window.
    pub rate_limit_per_15min: u32,
    /// Default analysis model.
    pub default_model: String,
    /// Credential of the analysis service, if any.
    pub huggingface_token: Option<String>,
}

} // verus!
