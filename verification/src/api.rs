//! The parameter types of the program's two entry surfaces — the command
//! line and the HTTP endpoints — and the rule that turns a request plus the
//! configuration into one run's settings.

use vstd::prelude::*;
use crate::store::Db;

verus! {

/// What the program is asked to do: process URLs from the command line, or
/// serve the HTTP surface on a port.
#[derive(Debug, Clone)]
pub enum Command {
    Cli { clear_db: bool, args: Vec<String> },
    Server { port: u16 },
}

/// The configured defaults of a run: the concurrency limit, the per-request
/// timeout in seconds, and where the cache store lives.
#[derive(Debug, Clone)]
pub struct Config {
    pub max_requests_at_once: usize,
    pub fetch_timeout_secs: u64,
    pub db_name: String,
}

/// Query of the cached-record endpoint: the URL asked about.
#[derive(Debug, Clone)]
pub struct CheckUrlParams {
    pub url: String,
}

/// Body of the fetch endpoint: the URLs to process and the per-request
/// overrides of the configured defaults.
#[derive(Debug, Clone)]
pub struct FetchUrlsParams {
    pub max_requests_at_once: Option<usize>,
    pub fetch_timeout_secs: Option<u64>,
    pub clear_db: Option<bool>,
    pub urls: Vec<String>,
}

impl FetchUrlsParams {
    /// One run's effective settings: each override when the request gives
    /// it, the configured default otherwise; clearing defaults to off.
    pub fn settings(&self, config: &Config) -> (r: (usize, u64, bool))
        ensures
            r.0 == match self.max_requests_at_once {
                Some(v) => v,
                None => config.max_requests_at_once,
            },
            r.1 == match self.fetch_timeout_secs {
                Some(v) => v,
                None => config.fetch_timeout_secs,
            },
            r.2 == match self.clear_db {
                Some(v) => v,
                None => false,
            },
    {
        let limit = match self.max_requests_at_once {
            Some(v) => v,
            None => config.max_requests_at_once,
        };
        let timeout = match self.fetch_timeout_secs {
            Some(v) => v,
            None => config.fetch_timeout_secs,
        };
        let clear = match self.clear_db {
            Some(v) => v,
            None => false,
        };
        (limit, timeout, clear)
    }
}

/// The server's shared state: the configuration and the lazily opened store
/// handle, `None` until the first request needs it.
pub struct AppState {
    pub db: Option<Db>,
    pub config: Config,
}

} // verus!
