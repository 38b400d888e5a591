//! The per-URL unit of work: lookup, fetch classification, write-through.
//!
//! The fetch itself is one HTTP GET bound by a timeout, performed by the
//! caller's I/O layer. This module holds everything around it that decides:
//! the error taxonomy, the rendering of errors into the outcome's text, the
//! cache-hit rule (a stored record is used as-is, no fetch), and the
//! write-through of a fetched record.

use vstd::prelude::*;
use crate::hashing::spec_url_hash;
use crate::hashing::url_to_hash;
use crate::record::DbRecord;
use crate::store::Db;
use crate::store::get_from_db;
use crate::store::miss_on_error;
use crate::store::save_to_db;
use crate::text::spec_decimal_chars;
use crate::text::append_decimal;

verus! {

/// Why one fetch failed. One variant per failure mode, carrying the
/// structured data of that mode; rendering to text is a separate step.
#[derive(Debug, Clone, PartialEq)]
pub enum FetchError {
    /// No response arrived within the timeout, or the request could not be
    /// sent at all. `detail` is the transport's own description.
    Timeout { url: String, timeout_secs: u64, detail: String },
    /// A response arrived whose status was not the canonical OK. `text` is
    /// the status line's text, such as `404 Not Found`.
    BadStatus { url: String, code: u16, text: String },
    /// The response body could not be read to its end.
    BodyRead { url: String },
}

impl FetchError {
    /// The outcome text of this error, exactly.
    pub open spec fn spec_render(self) -> Seq<char> {
        match self {
            FetchError::Timeout { url, timeout_secs, detail } => "could not download within "@
                + spec_decimal_chars(timeout_secs as nat) + " seconds for URL "@ + url@ + ": "@
                + detail@,
            FetchError::BadStatus { url, code, text } => "Status code: '"@ + text@
                + "' for URL: "@ + url@ + "\n"@,
            FetchError::BodyRead { url } => "Failed to read response text from "@ + url@,
        }
    }
}

/// Renders a fetch error into the text recorded as the URL's outcome.
pub fn render_fetch_error(e: &FetchError) -> (r: String)
    ensures
        r@ == e.spec_render(),
{
    match e {
        FetchError::Timeout { url, timeout_secs, detail } => {
            let mut s = String::new();
            s.append("could not download within ");
            append_decimal(&mut s, *timeout_secs);
            s.append(" seconds for URL ");
            s.append(url.as_str());
            s.append(": ");
            s.append(detail.as_str());
            proof {
                assert(s@ =~= e.spec_render());
            }
            s
        },
        FetchError::BadStatus { url, code: _, text } => {
            let mut s = String::new();
            s.append("Status code: '");
            s.append(text.as_str());
            s.append("' for URL: ");
            s.append(url.as_str());
            s.append("\n");
            proof {
                assert(s@ =~= e.spec_render());
            }
            s
        },
        FetchError::BodyRead { url } => {
            let mut s = String::new();
            s.append("Failed to read response text from ");
            s.append(url.as_str());
            proof {
                assert(s@ =~= e.spec_render());
            }
            s
        },
    }
}

/// Per-URL terminal result: a success carries the line count and fetch time
/// of the record that was stored or found; a failure carries readable text.
#[derive(Debug, Clone, PartialEq)]
pub enum Outcome {
    Success { line_count: usize, at: String },
    Failure { message: String },
}

/// What a unit does after its cache lookup.
#[derive(Debug, Clone, PartialEq)]
pub enum UnitPlan {
    /// A stored record answers the URL: no fetch happens.
    CacheHit(DbRecord),
    /// Nothing usable is stored: fetch the URL.
    NeedFetch,
}

/// The path a unit takes after its lookup: a stored record is used as it
/// stands, anything else leads to one fetch.
pub open spec fn spec_plan(cached: Option<DbRecord>) -> UnitPlan {
    match cached {
        Some(rec) => UnitPlan::CacheHit(rec),
        None => UnitPlan::NeedFetch,
    }
}

/// The outcome a stored record yields on a cache hit.
pub open spec fn spec_outcome_of_hit(rec: DbRecord) -> Outcome {
    Outcome::Success { line_count: rec.line_count, at: rec.at }
}

/// Decides the unit's path from its lookup result.
pub fn plan_unit(cached: Option<DbRecord>) -> (p: UnitPlan)
    ensures
        p == spec_plan(cached),
{
    match cached {
        Some(rec) => UnitPlan::CacheHit(rec),
        None => UnitPlan::NeedFetch,
    }
}

/// The outcome recorded on a cache hit: the stored record's own result,
/// unchanged.
pub fn outcome_of_hit(rec: DbRecord) -> (o: Outcome)
    ensures
        o == spec_outcome_of_hit(rec),
{
    Outcome::Success { line_count: rec.line_count, at: rec.at }
}

/// One unit's cache lookup: the URL's cache key, and the stored record under
/// it if one is there. A store read error is folded into a miss by
/// `miss_on_error`'s contract: the engine treats the two alike and fetches,
/// and the error never surfaces as the unit's outcome.
pub fn lookup_url(db: &Db, url: &str) -> (r: (String, Option<DbRecord>))
    ensures
        r.0@ == spec_url_hash(url@),
{
    let key = url_to_hash(url);
    let cached = miss_on_error(get_from_db(db, key.as_str()));
    (key, cached)
}

/// Whether a response status lets the body be read and counted: only the
/// canonical OK status does; any other status fails the fetch.
pub fn status_is_ok(code: u16) -> (r: bool)
    ensures
        r == (code == 200),
{
    code == 200
}

/// The outcome of a completed fetch: success carries the fetched record's
/// line count and timestamp, failure the error's rendered text.
pub fn outcome_of_fetch(res: Result<DbRecord, FetchError>) -> (o: Outcome)
    ensures
        match res {
            Ok(rec) => o == spec_outcome_of_hit(rec),
            Err(e) => o matches Outcome::Failure { message } && message@ == e.spec_render(),
        },
{
    match res {
        Ok(rec) => Outcome::Success { line_count: rec.line_count, at: rec.at },
        Err(e) => {
            let message = render_fetch_error(&e);
            Outcome::Failure { message }
        },
    }
}

/// Completes a unit whose fetch finished: a fetched record is written through
/// to the store under `key` before the outcome is reported, and a write
/// failure is not the unit's outcome — the outcome is the fetch's, either
/// way.
pub fn finish_unit(db: &Db, key: &str, res: Result<DbRecord, FetchError>) -> (o: Outcome)
    ensures
        match res {
            Ok(rec) => o == spec_outcome_of_hit(rec),
            Err(e) => o matches Outcome::Failure { message } && message@ == e.spec_render(),
        },
{
    match &res {
        Ok(rec) => {
            let _ = save_to_db(db, key, rec);
        },
        Err(_) => (),
    }
    outcome_of_fetch(res)
}

/// Law: a unit whose lookup finds a stored record takes the cache-hit path —
/// it plans no fetch, and its outcome is exactly the stored record's line
/// count and timestamp. With the store unchanged, a second run over the same
/// URL set is answered from the cache alone, with the same outcomes.
pub proof fn lemma_cached_skips_fetch(rec: DbRecord)
    ensures
        spec_plan(Some(rec)) == UnitPlan::CacheHit(rec),
        spec_plan(Some(rec)) != UnitPlan::NeedFetch,
        spec_outcome_of_hit(rec) == (Outcome::Success { line_count: rec.line_count, at: rec.at }),
{
}

} // verus!
