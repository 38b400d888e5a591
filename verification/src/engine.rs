//! The scheduler/engine: draining the work set under a concurrency bound.
//!
//! The engine is the run's single coordinating state machine. It owns the
//! pending pool, the bounded in-flight set and the aggregate result being
//! built; the caller's I/O layer runs one unit per started URL and reports
//! each completion back. Started units never outnumber the concurrency
//! limit, every submitted URL is started once and resolved once, and the run
//! is done exactly when nothing is pending and nothing is in flight.

use vstd::prelude::*;
use vstd::multiset::Multiset;
use vstd::seq_lib::group_to_multiset_ensures;
use crate::dedup::lemma_url_views_push;
use crate::dedup::url_views;
use crate::fetch::Outcome;

verus! {

broadcast use group_to_multiset_ensures;

/// The aggregate result: one outcome per resolved URL, keys distinct.
pub struct AggregateResult {
    entries: Vec<(String, Outcome)>,
}

impl AggregateResult {
    /// The recorded pairs: each resolved URL's text with its outcome.
    pub closed spec fn entries_view(self) -> Seq<(Seq<char>, Outcome)> {
        self.entries@.map_values(|p: (String, Outcome)| (p.0@, p.1))
    }

    /// The resolved URLs' texts, in insertion order.
    pub closed spec fn keys(self) -> Seq<Seq<char>> {
        self.entries@.map_values(|p: (String, Outcome)| p.0@)
    }

    /// Each URL appears at most once.
    pub open spec fn wf(self) -> bool {
        self.keys().no_duplicates()
    }

    pub closed spec fn spec_len(self) -> nat {
        self.entries@.len()
    }

    pub open spec fn spec_contains(self, url: Seq<char>) -> bool {
        self.keys().contains(url)
    }

    /// An empty aggregate: no URL resolved yet.
    pub fn new() -> (r: AggregateResult)
        ensures
            r.wf(),
            r.spec_len() == 0,
            r.entries_view() =~= Seq::<(Seq<char>, Outcome)>::empty(),
            r.keys() =~= Seq::<Seq<char>>::empty(),
    {
        AggregateResult { entries: Vec::new() }
    }

    /// How many URLs are resolved.
    pub fn len(&self) -> (n: usize)
        ensures
            n == self.spec_len(),
    {
        self.entries.len()
    }

    /// Records the outcome of a URL not resolved before.
    fn insert(&mut self, url: String, outcome: Outcome)
        requires
            old(self).wf(),
            !old(self).spec_contains(url@),
        ensures
            final(self).wf(),
            final(self).entries_view() == old(self).entries_view().push((url@, outcome)),
            final(self).keys() == old(self).keys().push(url@),
    {
        let ghost before = *self;
        let ghost uview = url@;
        self.entries.push((url, outcome));
        proof {
            assert(self.entries@.last().0@ == uview);
            assert(self.entries_view() =~= before.entries_view().push((uview, outcome)));
            assert(self.keys() =~= before.keys().push(uview));
            crate::dedup::lemma_push_distinct(before.keys(), uview);
        }
    }

    /// The recorded pairs, for reporting: each resolved URL with its outcome.
    pub fn entries(&self) -> (r: &Vec<(String, Outcome)>)
        ensures
            r@.map_values(|p: (String, Outcome)| (p.0@, p.1)) == self.entries_view(),
    {
        &self.entries
    }

    /// The outcome recorded for a URL, if it is resolved.
    pub fn get(&self, url: &String) -> (r: Option<&Outcome>)
        ensures
            match r {
                Some(o) => self.entries_view().contains((url@, *o)),
                None => !self.spec_contains(url@),
            },
    {
        let n = self.entries.len();
        let mut i: usize = 0;
        while i < n && !self.entries[i].0.eq(url)
            invariant
                i <= n,
                n == self.entries@.len(),
                forall|k: int| 0 <= k < i ==> self.keys()[k] != url@,
            decreases n - i,
        {
            i = i + 1;
        }
        if i < n {
            let p = &self.entries[i];
            assert(self.entries_view()[i as int] == (url@, p.1));
            Some(&p.1)
        } else {
            assert(!self.spec_contains(url@));
            None
        }
    }
}

/// The engine's state over one run.
pub struct Engine {
    limit: usize,
    pending: Vec<String>,
    in_flight: Vec<String>,
    results: AggregateResult,
    submitted: Ghost<Seq<Seq<char>>>,
}

impl Engine {
    pub closed spec fn pending_urls(self) -> Seq<Seq<char>> {
        url_views(self.pending@)
    }

    pub closed spec fn in_flight_urls(self) -> Seq<Seq<char>> {
        url_views(self.in_flight@)
    }

    pub closed spec fn result_keys(self) -> Seq<Seq<char>> {
        self.results.keys()
    }

    /// The deduplicated work set this run was given.
    pub closed spec fn submitted_urls(self) -> Seq<Seq<char>> {
        self.submitted@
    }

    pub closed spec fn spec_limit(self) -> nat {
        self.limit as nat
    }

    pub closed spec fn spec_results(self) -> AggregateResult {
        self.results
    }

    /// The engine's invariant: the limit is positive, the in-flight set never
    /// exceeds it, the submitted work set has no duplicates, and every
    /// submitted URL is in exactly one place — pending, in flight, or
    /// resolved.
    pub closed spec fn inv(self) -> bool {
        &&& self.limit >= 1
        &&& self.in_flight_urls().len() <= self.limit
        &&& self.submitted_urls().no_duplicates()
        &&& self.pending_urls().to_multiset().add(self.in_flight_urls().to_multiset()).add(
            self.result_keys().to_multiset(),
        ) == self.submitted_urls().to_multiset()
        &&& self.results.wf()
    }

    /// The run is over: nothing pending, nothing in flight.
    pub closed spec fn spec_done(self) -> bool {
        self.pending_urls().len() == 0 && self.in_flight_urls().len() == 0
    }

    /// A fresh engine over a deduplicated work set. An empty work set is done
    /// at once, with an empty aggregate: nothing will be started.
    pub fn new(urls: Vec<String>, limit: usize) -> (e: Engine)
        requires
            limit >= 1,
            url_views(urls@).no_duplicates(),
        ensures
            e.inv(),
            e.spec_limit() == limit,
            e.submitted_urls() == url_views(urls@),
            e.pending_urls() == url_views(urls@),
            e.in_flight_urls().len() == 0,
            e.result_keys().len() == 0,
            e.spec_results().spec_len() == 0,
            urls@.len() == 0 ==> e.spec_done(),
    {
        let e = Engine {
            limit,
            pending: urls,
            in_flight: Vec::new(),
            results: AggregateResult::new(),
            submitted: Ghost(url_views(urls@)),
        };
        proof {
            assert(e.in_flight_urls() =~= Seq::<Seq<char>>::empty());
            assert(e.in_flight_urls().to_multiset() =~= Multiset::<Seq<char>>::empty());
            assert(e.result_keys().to_multiset() =~= Multiset::<Seq<char>>::empty());
            assert(e.pending_urls().to_multiset().add(e.in_flight_urls().to_multiset()).add(
                e.result_keys().to_multiset(),
            ) =~= e.submitted_urls().to_multiset());
        }
        e
    }

    /// Whether the run is finished; the engine terminates exactly when this
    /// holds, and then every submitted URL has its outcome.
    pub fn is_done(&self) -> (r: bool)
        ensures
            r == self.spec_done(),
    {
        self.pending.len() == 0 && self.in_flight.len() == 0
    }

    /// Starts one unit if the in-flight set is below the limit and work is
    /// pending: moves one pending URL into the in-flight set and hands it to
    /// the caller to run. Returns `None` exactly when capacity is exhausted
    /// or nothing is pending. The in-flight count never exceeds the limit.
    pub fn start_next(&mut self) -> (r: Option<String>)
        requires
            old(self).inv(),
        ensures
            final(self).inv(),
            final(self).spec_limit() == old(self).spec_limit(),
            final(self).submitted_urls() == old(self).submitted_urls(),
            final(self).spec_results() == old(self).spec_results(),
            final(self).in_flight_urls().len() <= final(self).spec_limit(),
            match r {
                Some(url) => {
                    &&& old(self).pending_urls().len() > 0
                    &&& old(self).in_flight_urls().len() < old(self).spec_limit()
                    &&& url@ == old(self).pending_urls().last()
                    &&& final(self).pending_urls() == old(self).pending_urls().drop_last()
                    &&& final(self).in_flight_urls() == old(self).in_flight_urls().push(url@)
                },
                None => {
                    &&& final(self).pending_urls() == old(self).pending_urls()
                    &&& final(self).in_flight_urls() == old(self).in_flight_urls()
                    &&& (old(self).pending_urls().len() == 0 || old(self).in_flight_urls().len()
                        >= old(self).spec_limit())
                },
            },
    {
        if self.in_flight.len() >= self.limit {
            return None;
        }
        let ghost before = *self;
        match self.pending.pop() {
            None => {
                assert(self.pending_urls().len() == 0);
                None
            },
            Some(url) => {
                let started = url.clone();
                let ghost mid_in_flight = self.in_flight@;
                self.in_flight.push(started);
                proof {
                    assert(self.pending_urls() =~= before.pending_urls().drop_last());
                    assert(url@ == before.pending_urls().last());
                    lemma_url_views_push(mid_in_flight, self.in_flight@.last());
                    assert(self.in_flight_urls() =~= before.in_flight_urls().push(url@));
                    let u = url@;
                    let p_old = before.pending_urls();
                    let i_old = before.in_flight_urls();
                    let k = before.result_keys();
                    assert(p_old.remove(p_old.len() - 1) =~= p_old.drop_last());
                    assert(self.pending_urls().to_multiset() == p_old.to_multiset().remove(u));
                    assert(self.in_flight_urls().to_multiset() == i_old.to_multiset().insert(u));
                    assert(p_old.contains(u)) by {
                        assert(p_old[p_old.len() - 1] == u);
                    }
                    assert(p_old.to_multiset().count(u) > 0);
                    assert(self.pending_urls().to_multiset().add(
                        self.in_flight_urls().to_multiset(),
                    ).add(self.result_keys().to_multiset()) =~= p_old.to_multiset().add(
                        i_old.to_multiset(),
                    ).add(k.to_multiset()));
                }
                Some(url)
            },
        }
    }

    /// Merges one completed unit's outcome into the aggregate: the URL leaves
    /// the in-flight set, and its outcome is recorded — once, like every
    /// submitted URL's.
    pub fn complete(&mut self, url: &String, outcome: Outcome)
        requires
            old(self).inv(),
            old(self).in_flight_urls().contains(url@),
        ensures
            final(self).inv(),
            final(self).spec_limit() == old(self).spec_limit(),
            final(self).submitted_urls() == old(self).submitted_urls(),
            final(self).pending_urls() == old(self).pending_urls(),
            final(self).in_flight_urls().len() == old(self).in_flight_urls().len() - 1,
            final(self).in_flight_urls().to_multiset() == old(self).in_flight_urls().to_multiset()
                .remove(url@),
            final(self).spec_results().entries_view() == old(self).spec_results().entries_view()
                .push((url@, outcome)),
            final(self).result_keys() == old(self).result_keys().push(url@),
    {
        let ghost before = *self;
        let n = self.in_flight.len();
        let mut i: usize = 0;
        while i < n && !self.in_flight[i].eq(url)
            invariant
                i <= n,
                n == self.in_flight@.len(),
                self.in_flight@ == before.in_flight@,
                forall|k: int| 0 <= k < i ==> url_views(self.in_flight@)[k] != url@,
            decreases n - i,
        {
            i = i + 1;
        }
        proof {
            if i == n {
                let w = choose|w: int|
                    0 <= w < before.in_flight_urls().len() && before.in_flight_urls()[w] == url@;
                assert(url_views(self.in_flight@)[w] != url@);
                assert(false);
            }
        }
        let _removed = self.in_flight.remove(i);
        proof {
            let u = url@;
            let p = before.pending_urls();
            let i_old = before.in_flight_urls();
            let k = before.result_keys();
            assert(self.in_flight_urls() =~= i_old.remove(i as int));
            assert(i_old[i as int] == u);
            assert(self.in_flight_urls().to_multiset() == i_old.to_multiset().remove(u));
            assert(i_old.to_multiset().count(u) > 0) by {
                assert(i_old.contains(u));
            }
            // The URL cannot already be resolved: it is submitted exactly
            // once, and its one slot is the in-flight one.
            before.submitted_urls().lemma_multiset_has_no_duplicates();
            assert(before.submitted_urls().to_multiset().contains(u)) by {
                assert(before.submitted_urls().to_multiset().count(u) >= i_old.to_multiset().count(
                    u,
                ));
            }
            assert(before.submitted_urls().to_multiset().count(u) == 1);
            assert(k.to_multiset().count(u) == 0);
            assert(!k.contains(u));
        }
        self.results.insert(url.clone(), outcome);
        proof {
            let u = url@;
            let p = before.pending_urls();
            let i_old = before.in_flight_urls();
            let k = before.result_keys();
            assert(self.result_keys() == k.push(u));
            assert(self.result_keys().to_multiset() == k.to_multiset().insert(u));
            assert(self.pending_urls().to_multiset().add(self.in_flight_urls().to_multiset()).add(
                self.result_keys().to_multiset(),
            ) =~= p.to_multiset().add(i_old.to_multiset()).add(k.to_multiset()));
        }
    }

    /// Whether a URL is currently in flight — the condition `complete`
    /// demands of its caller.
    pub fn is_in_flight(&self, url: &String) -> (r: bool)
        ensures
            r == self.in_flight_urls().contains(url@),
    {
        let n = self.in_flight.len();
        let mut i: usize = 0;
        while i < n && !self.in_flight[i].eq(url)
            invariant
                i <= n,
                n == self.in_flight@.len(),
                forall|k: int| 0 <= k < i ==> url_views(self.in_flight@)[k] != url@,
            decreases n - i,
        {
            i = i + 1;
        }
        if i < n {
            assert(self.in_flight_urls()[i as int] == url@);
            true
        } else {
            assert(!self.in_flight_urls().contains(url@));
            false
        }
    }

    /// Hands the aggregate result out when the caller is finished driving.
    pub fn into_results(self) -> (r: AggregateResult)
        ensures
            r == self.spec_results(),
    {
        self.results
    }

    /// A look at the aggregate built so far.
    pub fn results(&self) -> (r: &AggregateResult)
        ensures
            *r == self.spec_results(),
    {
        &self.results
    }

    /// Law: the number of units in flight never exceeds the concurrency
    /// limit, in every state the engine can reach.
    pub proof fn lemma_in_flight_bounded(self)
        requires
            self.inv(),
        ensures
            self.in_flight_urls().len() <= self.spec_limit(),
    {
    }

    /// Law: a finished run accounts for every submitted URL exactly once —
    /// the aggregate's keys are exactly the deduplicated work set, with no
    /// URL dropped and none repeated, so its size equals the work set's. The
    /// last two clauses say the same of the aggregate that `into_results`
    /// hands out.
    pub proof fn lemma_done_accounts_for_all(self)
        requires
            self.inv(),
            self.spec_done(),
        ensures
            self.result_keys().len() == self.submitted_urls().len(),
            self.result_keys().no_duplicates(),
            forall|u: Seq<char>|
                self.result_keys().contains(u) <==> self.submitted_urls().contains(u),
            self.spec_results().spec_len() == self.submitted_urls().len(),
            forall|u: Seq<char>|
                self.spec_results().spec_contains(u) <==> self.submitted_urls().contains(u),
    {
        assert(self.spec_results().spec_len() == self.result_keys().len());
        assert(self.pending_urls().to_multiset() =~= Multiset::<Seq<char>>::empty());
        assert(self.in_flight_urls().to_multiset() =~= Multiset::<Seq<char>>::empty());
        assert(self.result_keys().to_multiset() =~= self.submitted_urls().to_multiset());
        assert(self.result_keys().len() == self.result_keys().to_multiset().len());
        assert(self.submitted_urls().len() == self.submitted_urls().to_multiset().len());
        assert forall|u: Seq<char>|
            self.result_keys().contains(u) <==> self.submitted_urls().contains(u) by {
            assert(self.result_keys().contains(u) <==> self.result_keys().to_multiset().count(u)
                > 0);
            assert(self.submitted_urls().contains(u) <==> self.submitted_urls().to_multiset().count(
                u,
            ) > 0);
        }
    }
}

} // verus!
