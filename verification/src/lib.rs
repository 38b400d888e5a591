//! Fetch a set of URLs, count each page's lines, and cache the results in a
//! durable key-value store keyed by a hash of the URL, so repeated runs skip
//! the network.
//!
//! The heart is `engine`: a coordinating state machine that drains a
//! deduplicated work set under a concurrency bound and aggregates one
//! outcome per URL. Around it stand the URL hashing (`hashing`), the work-set
//! dedup (`dedup`), the per-URL unit rules (`fetch`), the record and its
//! stored form (`record`, `codec`), and the store capability (`store`). The
//! I/O that drives a run — HTTP, files, the server — lives outside the
//! library and only calls in.

pub mod api;
pub mod codec;
pub mod dedup;
pub mod engine;
pub mod fetch;
pub mod hashing;
pub mod record;
pub mod store;
pub mod text;
