//! The cached record: what one successful fetch of a URL produced.

use vstd::prelude::*;
use vstd::string::StringSliceAdditionalSpecFns;
use crate::text::spec_line_count;
use crate::text::count_lines;

verus! {

/// One stored result: the fetched URL, how many lines its body had, and the
/// UTC time of the fetch in RFC 3339 text. Immutable once written; the store
/// hands copies out.
#[derive(Debug, Clone, PartialEq)]
pub struct DbRecord {
    pub url: String,
    pub line_count: usize,
    pub at: String,
}

/// Relies on chrono's `Utc::now` and `DateTime::to_rfc3339_opts`: the current
/// UTC wall-clock time, rendered as RFC 3339 text. The result depends on the
/// clock, so nothing is promised of its value.
#[verifier::external_body]
pub fn now_iso_utc() -> String {
    chrono::Utc::now().to_rfc3339_opts(chrono::SecondsFormat::Millis, true)
}

/// Builds the record for a successfully fetched body: the line count is the
/// body's newline-delimited line count, and `at` is the timestamp the fetch
/// layer took when the request began.
pub fn make_record(url: &str, body: &str, at: String) -> (r: DbRecord)
    ensures
        r.url@ == url@,
        r.line_count == spec_line_count(body.spec_bytes()),
        r.at == at,
{
    DbRecord { url: url.to_owned(), line_count: count_lines(body), at }
}

} // verus!
