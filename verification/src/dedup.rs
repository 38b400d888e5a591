//! The dedup queue: turning a raw URL collection into the work set.
//!
//! The work set holds each distinct URL text exactly once; order carries no
//! meaning downstream. An empty input yields an empty work set, which callers
//! detect and skip scheduling for.

use vstd::prelude::*;
use vstd::string::StringSliceAdditionalSpecFns;
use crate::text::is_http_url;
use crate::text::spec_is_http;

verus! {

/// The texts of a sequence of strings.
pub open spec fn url_views(v: Seq<String>) -> Seq<Seq<char>> {
    v.map_values(|s: String| s@)
}

pub proof fn lemma_url_views_push(v: Seq<String>, s: String)
    ensures
        url_views(v.push(s)) =~= url_views(v).push(s@),
{
}

pub proof fn lemma_seq_contains_push(s: Seq<Seq<char>>, x: Seq<char>, v: Seq<char>)
    ensures
        s.push(x).contains(v) <==> (s.contains(v) || v == x),
{
    if s.push(x).contains(v) {
        let k = choose|k: int| 0 <= k < s.push(x).len() && s.push(x)[k] == v;
        if k < s.len() {
            assert(s[k] == v);
        }
    }
    if s.contains(v) {
        let k = choose|k: int| 0 <= k < s.len() && s[k] == v;
        assert(s.push(x)[k] == v);
    }
    if v == x {
        assert(s.push(x).last() == v);
    }
}

/// Pushing a text not yet present keeps a duplicate-free sequence
/// duplicate-free.
pub proof fn lemma_push_distinct(s: Seq<Seq<char>>, x: Seq<char>)
    requires
        s.no_duplicates(),
        !s.contains(x),
    ensures
        s.push(x).no_duplicates(),
{
    let t = s.push(x);
    assert forall|a: int, b: int| 0 <= a < t.len() && 0 <= b < t.len() && a != b implies t[a]
        != t[b] by {
        if a < s.len() && b < s.len() {
            assert(s[a] != s[b]);
        } else if a == s.len() && b < s.len() {
            if t[a] == t[b] {
                assert(s[b] == t[b]);
                assert(s.contains(t[a]));
            }
        } else if b == s.len() && a < s.len() {
            if t[a] == t[b] {
                assert(s[a] == t[a]);
                assert(s.contains(t[b]));
            }
        }
    }
}

/// Adds a URL to the work set unless its text is already there; reports
/// whether it was added. Keeps the set free of duplicates.
pub fn add_url(urls: &mut Vec<String>, url: String) -> (added: bool)
    requires
        url_views(old(urls)@).no_duplicates(),
    ensures
        url_views(final(urls)@).no_duplicates(),
        added == !url_views(old(urls)@).contains(url@),
        added ==> final(urls)@ == old(urls)@.push(url),
        !added ==> final(urls)@ == old(urls)@,
{
    let n = urls.len();
    let mut i: usize = 0;
    while i < n && !urls[i].eq(&url)
        invariant
            i <= n,
            n == urls@.len(),
            urls@ == old(urls)@,
            forall|k: int| 0 <= k < i ==> url_views(urls@)[k] != url@,
        decreases n - i,
    {
        i = i + 1;
    }
    if i < n {
        assert(url_views(urls@)[i as int] == url@);
        false
    } else {
        assert(!url_views(urls@).contains(url@));
        let ghost before = urls@;
        let ghost added_view = url@;
        urls.push(url);
        proof {
            lemma_url_views_push(before, urls@.last());
            assert(url_views(urls@) =~= url_views(before).push(added_view));
            lemma_push_distinct(url_views(before), added_view);
        }
        true
    }
}

/// Deduplicates a raw URL collection into the work set: each distinct URL
/// text exactly once, never more entries than came in, and exactly the texts
/// that came in.
pub fn normalize(urls: Vec<String>) -> (out: Vec<String>)
    ensures
        url_views(out@).no_duplicates(),
        out@.len() <= urls@.len(),
        forall|u: Seq<char>| url_views(out@).contains(u) <==> url_views(urls@).contains(u),
{
    let mut out: Vec<String> = Vec::new();
    let mut i: usize = 0;
    while i < urls.len()
        invariant
            i <= urls@.len(),
            url_views(out@).no_duplicates(),
            out@.len() <= i,
            forall|u: Seq<char>|
                url_views(out@).contains(u) <==> url_views(urls@.subrange(0, i as int)).contains(
                    u,
                ),
        decreases urls@.len() - i,
    {
        let ghost prev = out@;
        let u = urls[i].clone();
        assert(u@ == urls@[i as int]@);
        let added = add_url(&mut out, u);
        proof {
            let pre = urls@.subrange(0, i as int);
            let cur = urls@.subrange(0, i + 1);
            let u_view = urls@[i as int]@;
            assert(cur =~= pre.push(urls@[i as int]));
            lemma_url_views_push(pre, urls@[i as int]);
            assert(url_views(cur) =~= url_views(pre).push(u_view));
            if added {
                lemma_url_views_push(prev, out@.last());
                assert(url_views(out@) =~= url_views(prev).push(u_view));
            }
            assert forall|v: Seq<char>| true implies (url_views(out@).contains(v) <==> url_views(
                cur,
            ).contains(v)) by {
                lemma_seq_contains_push(url_views(pre), u_view, v);
                if added {
                    lemma_seq_contains_push(url_views(prev), u_view, v);
                } else {
                    assert(url_views(prev).contains(u_view));
                }
            }
        }
        i = i + 1;
    }
    proof {
        assert(urls@.subrange(0, urls@.len() as int) =~= urls@);
    }
    out
}

/// The command line's gathering rule: a candidate line joins the work set
/// exactly when it starts with `http` and its text is not yet in the set;
/// every other line is ignored.
pub fn collect_candidates(urls: &mut Vec<String>, candidates: Vec<String>)
    requires
        url_views(old(urls)@).no_duplicates(),
    ensures
        url_views(final(urls)@).no_duplicates(),
        forall|u: Seq<char>|
            url_views(final(urls)@).contains(u) <==> (url_views(old(urls)@).contains(u) || (
            url_views(candidates@).contains(u) && spec_is_http(vstd::utf8::encode_utf8(u)))),
{
    let ghost orig = urls@;
    let mut i: usize = 0;
    while i < candidates.len()
        invariant
            i <= candidates@.len(),
            url_views(urls@).no_duplicates(),
            forall|u: Seq<char>|
                url_views(urls@).contains(u) <==> (url_views(orig).contains(u) || (
                url_views(candidates@.subrange(0, i as int)).contains(u) && spec_is_http(
                    vstd::utf8::encode_utf8(u),
                ))),
        decreases candidates@.len() - i,
    {
        let ghost prev = urls@;
        let c = candidates[i].clone();
        assert(c@ == candidates@[i as int]@);
        let is_url = is_http_url(c.as_str());
        let ghost c_view = candidates@[i as int]@;
        let ghost c_http = spec_is_http(vstd::utf8::encode_utf8(c_view));
        assert(is_url == c_http);
        let mut added: bool = false;
        if is_url {
            added = add_url(urls, c);
        }
        proof {
            let pre = candidates@.subrange(0, i as int);
            let cur = candidates@.subrange(0, i + 1);
            assert(cur =~= pre.push(candidates@[i as int]));
            lemma_url_views_push(pre, candidates@[i as int]);
            assert(url_views(cur) =~= url_views(pre).push(c_view));
            if added {
                lemma_url_views_push(prev, urls@.last());
                assert(url_views(urls@) =~= url_views(prev).push(c_view));
            } else {
                assert(urls@ == prev);
            }
            assert forall|v: Seq<char>| true implies (url_views(urls@).contains(v) <==> (url_views(
                orig,
            ).contains(v) || (url_views(cur).contains(v) && spec_is_http(
                vstd::utf8::encode_utf8(v),
            )))) by {
                assert(url_views(prev).contains(v) <==> (url_views(orig).contains(v) || (
                url_views(pre).contains(v) && spec_is_http(vstd::utf8::encode_utf8(v)))));
                lemma_seq_contains_push(url_views(pre), c_view, v);
                if added {
                    lemma_seq_contains_push(url_views(prev), c_view, v);
                } else {
                    if is_url {
                        assert(url_views(prev).contains(c_view));
                    }
                }
            }
        }
        i = i + 1;
    }
    proof {
        assert(candidates@.subrange(0, candidates@.len() as int) =~= candidates@);
    }
}

} // verus!
