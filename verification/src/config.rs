//! Settings of the scraper and of the API server.

use vstd::prelude::*;

verus! {

/// Base URL of the catalogue site.
pub const BASE_URL: &'static str = "https://animeav1.com";

/// User-Agent of a desktop Chrome; the site may refuse unknown agents.
pub const USER_AGENT: &'static str = "Mozilla/5.0 (Windows NT 10.0; Win64; x64) AppleWebKit/537.36 (KHTML, like Gecko) Chrome/124.0.0.0 Safari/537.36";

/// Timeout of the HTTP requests, in seconds.
pub const REQUEST_TIMEOUT_SECS: u64 = 30;

/// Port of the API server of the `serve` subcommand.
pub const SERVE_PORT: u16 = 3030;

/// Listening address of the API server.
pub const SERVE_ADDR: &'static str = "127.0.0.1";

} // verus!
