//! What is done with the answers of a search: merging in the answers for
//! username variants, picking the claimed accounts, and the timing summary.

use vstd::prelude::*;
use crate::text::views;
use crate::types::{QueryResult, QueryStatus, SearchResults};

verus! {

// ---------------------------------------------------------------------------
// Merging the answers for variants
// ---------------------------------------------------------------------------

/// The view of an answer: username, site, address, status and time taken.
pub open spec fn result_view(r: QueryResult) -> (Seq<char>, Seq<char>, Seq<char>, QueryStatus, Option<u64>) {
    (r.username@, r.site_name@, r.site_url_user@, r.status, r.query_time_ms)
}

/// The views of a list of answers.
pub open spec fn result_views(v: Seq<QueryResult>) -> Seq<(Seq<char>, Seq<char>, Seq<char>, QueryStatus, Option<u64>)> {
    v.map_values(|r: QueryResult| result_view(r))
}

/// Two answers are about the same account: same site, same username.
pub open spec fn same_account(
    a: (Seq<char>, Seq<char>, Seq<char>, QueryStatus, Option<u64>),
    b: (Seq<char>, Seq<char>, Seq<char>, QueryStatus, Option<u64>),
) -> bool {
    a.1 == b.1 && a.0 == b.0
}

/// The answers after adding `xs` in order, each unless an answer about the
/// same account is already there.
pub open spec fn merged(
    base: Seq<(Seq<char>, Seq<char>, Seq<char>, QueryStatus, Option<u64>)>,
    xs: Seq<(Seq<char>, Seq<char>, Seq<char>, QueryStatus, Option<u64>)>,
) -> Seq<(Seq<char>, Seq<char>, Seq<char>, QueryStatus, Option<u64>)>
    decreases xs.len(),
{
    if xs.len() == 0 {
        base
    } else {
        let m = merged(base, xs.drop_last());
        if exists|i: int| 0 <= i < m.len() && same_account(#[trigger] m[i], xs.last()) {
            m
        } else {
            m.push(xs.last())
        }
    }
}

/// How many of the answers have the status.
pub open spec fn status_count(v: Seq<(Seq<char>, Seq<char>, Seq<char>, QueryStatus, Option<u64>)>, st: QueryStatus) -> nat
    decreases v.len(),
{
    if v.len() == 0 {
        0
    } else {
        status_count(v.drop_last(), st) + if v.last().3 == st {
            1nat
        } else {
            0nat
        }
    }
}

/// The counts of a set of results agree with its answers.
pub open spec fn counts_agree(r: SearchResults) -> bool {
    let v = result_views(r.results@);
    &&& r.total_sites == v.len()
    &&& r.claimed_count == status_count(v, QueryStatus::Claimed)
    &&& r.available_count == status_count(v, QueryStatus::Available)
    &&& r.unknown_count == status_count(v, QueryStatus::Unknown)
    &&& r.illegal_count == status_count(v, QueryStatus::Illegal)
    &&& r.waf_count == status_count(v, QueryStatus::Waf)
}

proof fn lemma_status_count_bound(v: Seq<(Seq<char>, Seq<char>, Seq<char>, QueryStatus, Option<u64>)>, st: QueryStatus)
    ensures
        status_count(v, st) <= v.len(),
    decreases v.len(),
{
    if v.len() > 0 {
        lemma_status_count_bound(v.drop_last(), st);
    }
}

fn count_status(results: &Vec<QueryResult>, st: QueryStatus) -> (n: usize)
    ensures
        n == status_count(result_views(results@), st),
{
    let ghost v = result_views(results@);
    let mut n: usize = 0;
    let mut i: usize = 0;
    while i < results.len()
        invariant
            v == result_views(results@),
            i <= results@.len(),
            n == status_count(v.take(i as int), st),
        decreases results@.len() - i,
    {
        assert(v.take(i + 1).drop_last() =~= v.take(i as int));
        proof {
            lemma_status_count_bound(v.take(i as int), st);
        }
        if results[i].status == st {
            n += 1;
        }
        i += 1;
    }
    assert(v.take(v.len() as int) =~= v);
    n
}

/// Sets every count of the results from its answers.
pub fn recount(results: &mut SearchResults)
    ensures
        counts_agree(*final(results)),
        final(results).results == old(results).results,
        final(results).username == old(results).username,
        final(results).timestamp == old(results).timestamp,
{
    results.total_sites = results.results.len();
    results.claimed_count = count_status(&results.results, QueryStatus::Claimed);
    results.available_count = count_status(&results.results, QueryStatus::Available);
    results.unknown_count = count_status(&results.results, QueryStatus::Unknown);
    results.illegal_count = count_status(&results.results, QueryStatus::Illegal);
    results.waf_count = count_status(&results.results, QueryStatus::Waf);
}

fn same_account_exec(a: &QueryResult, b: &QueryResult) -> (r: bool)
    ensures
        r == same_account(result_view(*a), result_view(*b)),
{
    crate::text::str_eq(a.site_name.as_str(), b.site_name.as_str()) && crate::text::str_eq(
        a.username.as_str(),
        b.username.as_str(),
    )
}

/// Adds the answers for a variant of the username: each answer about an
/// account not yet answered for, in order; then the counts are set again.
pub fn merge_variant_results(all: &mut SearchResults, extra: Vec<QueryResult>)
    ensures
        result_views(final(all).results@) == merged(result_views(old(all).results@), result_views(extra@)),
        counts_agree(*final(all)),
        final(all).username == old(all).username,
        final(all).timestamp == old(all).timestamp,
{
    let ghost base = result_views(all.results@);
    let ghost xs = result_views(extra@);
    let mut rest = extra;
    let mut backwards: Vec<QueryResult> = Vec::new();
    while rest.len() > 0
        invariant
            xs.len() == backwards@.len() + rest@.len(),
            forall|k: int| 0 <= k < rest@.len() ==> result_view(#[trigger] rest@[k]) == xs[k],
            forall|k: int| 0 <= k < backwards@.len() ==> result_view(#[trigger] backwards@[k]) == xs[xs.len() - 1 - k],
        decreases rest@.len(),
    {
        let r = rest.pop().unwrap();
        backwards.push(r);
    }
    let n = backwards.len();
    let mut i: usize = 0;
    while backwards.len() > 0
        invariant
            n == xs.len(),
            i + backwards@.len() == n,
            forall|k: int| 0 <= k < backwards@.len() ==> result_view(#[trigger] backwards@[k]) == xs[n - 1 - k],
            result_views(all.results@) == merged(base, xs.take(i as int)),
            all.username == old(all).username,
            all.timestamp == old(all).timestamp,
        decreases backwards@.len(),
    {
        let r = backwards.pop().unwrap();
        assert(result_view(r) == xs[i as int]);
        assert(xs.take(i + 1).drop_last() =~= xs.take(i as int));
        let ghost m = result_views(all.results@);
        let mut found = false;
        let mut j: usize = 0;
        while j < all.results.len()
            invariant
                m == result_views(all.results@),
                j <= all.results@.len(),
                found <==> exists|q: int| 0 <= q < j && same_account(#[trigger] m[q], result_view(r)),
            decreases all.results@.len() - j,
        {
            assert(m[j as int] == result_view(all.results@[j as int]));
            if same_account_exec(&all.results[j], &r) {
                found = true;
            }
            j += 1;
        }
        if !found {
            all.results.push(r);
            assert(result_views(all.results@) =~= m.push(result_view(r)));
        }
        i += 1;
    }
    assert(xs.take(n as int) =~= xs);
    recount(all);
}

/// The site and address of each claimed account among the answers, in order.
pub open spec fn spec_claimed_sites(v: Seq<(Seq<char>, Seq<char>, Seq<char>, QueryStatus, Option<u64>)>) -> Seq<(Seq<char>, Seq<char>)>
    decreases v.len(),
{
    if v.len() == 0 {
        Seq::empty()
    } else {
        spec_claimed_sites(v.drop_last()) + if v.last().3 == QueryStatus::Claimed {
            seq![(v.last().1, v.last().2)]
        } else {
            Seq::empty()
        }
    }
}

/// The site and address of each claimed account among the answers.
pub fn claimed_sites(results: &SearchResults) -> (r: Vec<(String, String)>)
    ensures
        r@.map_values(|p: (String, String)| (p.0@, p.1@)) == spec_claimed_sites(result_views(results.results@)),
{
    let ghost v = result_views(results.results@);
    let mut r: Vec<(String, String)> = Vec::new();
    let mut i: usize = 0;
    while i < results.results.len()
        invariant
            v == result_views(results.results@),
            i <= results.results@.len(),
            r@.map_values(|p: (String, String)| (p.0@, p.1@)) == spec_claimed_sites(v.take(i as int)),
        decreases results.results@.len() - i,
    {
        assert(v.take(i + 1).drop_last() =~= v.take(i as int));
        let q = &results.results[i];
        if q.status == QueryStatus::Claimed {
            let p = (q.site_name.clone(), q.site_url_user.clone());
            assert(r@.push(p).map_values(|p: (String, String)| (p.0@, p.1@)) =~= r@.map_values(
                |p: (String, String)| (p.0@, p.1@),
            ).push((p.0@, p.1@)));
            r.push(p);
        } else {
            assert(r@.map_values(|p: (String, String)| (p.0@, p.1@)) =~= r@.map_values(
                |p: (String, String)| (p.0@, p.1@),
            ) + Seq::<(Seq<char>, Seq<char>)>::empty());
        }
        i += 1;
    }
    assert(v.take(v.len() as int) =~= v);
    r
}

// ---------------------------------------------------------------------------
// Timing summary
// ---------------------------------------------------------------------------

/// The time and site of each timed answer of one search, in order.
pub open spec fn timed_in(v: Seq<(Seq<char>, Seq<char>, Seq<char>, QueryStatus, Option<u64>)>) -> Seq<(u64, Seq<char>)>
    decreases v.len(),
{
    if v.len() == 0 {
        Seq::empty()
    } else {
        timed_in(v.drop_last()) + match v.last().4 {
            Some(t) => seq![(t, v.last().1)],
            None => Seq::empty(),
        }
    }
}

/// The time and site of each timed answer of all the searches, in order.
pub open spec fn timed_all(batches: Seq<SearchResults>) -> Seq<(u64, Seq<char>)>
    decreases batches.len(),
{
    if batches.len() == 0 {
        Seq::empty()
    } else {
        timed_all(batches.drop_last()) + timed_in(result_views(batches.last().results@))
    }
}

/// The sum of the times.
pub open spec fn total_time(ts: Seq<(u64, Seq<char>)>) -> nat
    decreases ts.len(),
{
    if ts.len() == 0 {
        0
    } else {
        total_time(ts.drop_last()) + ts.last().0 as nat
    }
}

/// `i` is the first of the quickest answers.
pub open spec fn is_first_fastest(ts: Seq<(u64, Seq<char>)>, i: int) -> bool {
    &&& 0 <= i < ts.len()
    &&& forall|j: int| 0 <= j < ts.len() ==> ts[i].0 <= #[trigger] ts[j].0
    &&& forall|j: int| 0 <= j < i ==> ts[i].0 < #[trigger] ts[j].0
}

/// `i` is the last of the slowest answers.
pub open spec fn is_last_slowest(ts: Seq<(u64, Seq<char>)>, i: int) -> bool {
    &&& 0 <= i < ts.len()
    &&& forall|j: int| 0 <= j < ts.len() ==> #[trigger] ts[j].0 <= ts[i].0
    &&& forall|j: int| i < j < ts.len() ==> #[trigger] ts[j].0 < ts[i].0
}

/// The timing summary of the searches.
#[derive(Debug)]
pub struct PerfStats {
    /// How many answers were timed.
    pub timed: usize,
    /// The sum of their times, in milliseconds.
    pub total_ms: u128,
    /// The quickest answer (the first of equally quick ones): time and site.
    pub fastest: (u64, String),
    /// The slowest answer (the last of equally slow ones): time and site.
    pub slowest: (u64, String),
}

proof fn lemma_total_time_bound(ts: Seq<(u64, Seq<char>)>)
    ensures
        total_time(ts) <= ts.len() * 0xffff_ffff_ffff_ffff,
    decreases ts.len(),
{
    if ts.len() > 0 {
        lemma_total_time_bound(ts.drop_last());
    }
}

/// The views of timed answers.
pub open spec fn timed_views(v: Seq<(u64, String)>) -> Seq<(u64, Seq<char>)> {
    v.map_values(|p: (u64, String)| (p.0, p.1@))
}

/// The time and site of each timed answer of all the searches, in order.
fn timed_answers(batches: &Vec<SearchResults>) -> (r: Vec<(u64, String)>)
    ensures
        timed_views(r@) == timed_all(batches@),
{
    let mut r: Vec<(u64, String)> = Vec::new();
    let mut b: usize = 0;
    while b < batches.len()
        invariant
            b <= batches@.len(),
            timed_views(r@) == timed_all(batches@.take(b as int)),
        decreases batches@.len() - b,
    {
        let ghost before = timed_all(batches@.take(b as int));
        assert(batches@.take(b + 1).drop_last() =~= batches@.take(b as int));
        let rs = &batches[b].results;
        let ghost v = result_views(rs@);
        let mut i: usize = 0;
        while i < rs.len()
            invariant
                v == result_views(rs@),
                i <= rs@.len(),
                timed_views(r@) == before + timed_in(v.take(i as int)),
            decreases rs@.len() - i,
        {
            assert(v.take(i + 1).drop_last() =~= v.take(i as int));
            if let Some(t) = rs[i].query_time_ms {
                let p = (t, rs[i].site_name.clone());
                assert(timed_views(r@.push(p)) =~= timed_views(r@).push((p.0, p.1@)));
                r.push(p);
            } else {
                assert(timed_views(r@) =~= timed_views(r@) + Seq::<(u64, Seq<char>)>::empty());
            }
            i += 1;
        }
        assert(v.take(v.len() as int) =~= v);
        b += 1;
    }
    assert(batches@.take(batches@.len() as int) =~= batches@);
    r
}

/// The timing summary of the searches: how many answers were timed, their
/// total time, and the quickest and slowest; `None` when no answer was
/// timed.
pub fn performance_stats(batches: &Vec<SearchResults>) -> (r: Option<PerfStats>)
    ensures
        match r {
            None => timed_all(batches@).len() == 0,
            Some(p) => {
                let ts = timed_all(batches@);
                &&& p.timed == ts.len()
                &&& p.timed > 0
                &&& p.total_ms == total_time(ts)
                &&& exists|i: int| is_first_fastest(ts, i) && ts[i] == (p.fastest.0, p.fastest.1@)
                &&& exists|i: int| is_last_slowest(ts, i) && ts[i] == (p.slowest.0, p.slowest.1@)
            },
        },
{
    let timed = timed_answers(batches);
    let ghost ts = timed_views(timed@);
    if timed.len() == 0 {
        return None;
    }
    let mut total: u128 = 0;
    let mut fi: usize = 0;
    let mut si: usize = 0;
    let mut i: usize = 0;
    while i < timed.len()
        invariant
            ts == timed_views(timed@),
            0 < ts.len(),
            i <= ts.len(),
            total == total_time(ts.take(i as int)),
            fi < ts.len(),
            si < ts.len(),
            i > 0 ==> is_first_fastest(ts.take(i as int), fi as int),
            i > 0 ==> is_last_slowest(ts.take(i as int), si as int),
        decreases ts.len() - i,
    {
        assert(ts.take(i + 1).drop_last() =~= ts.take(i as int));
        proof {
            lemma_total_time_bound(ts.take(i as int));
            assert(i * 0xffff_ffff_ffff_ffffnat <= 0xffff_ffff_ffff_ffff * 0xffff_ffff_ffff_ffffnat) by (nonlinear_arith)
                requires i <= 0xffff_ffff_ffff_ffffnat;
        }
        let t = timed[i].0;
        total = total + t as u128;
        if i == 0 || t < timed[fi].0 {
            fi = i;
        }
        if i == 0 || t >= timed[si].0 {
            si = i;
        }
        i += 1;
    }
    assert(ts.take(ts.len() as int) =~= ts);
    Some(PerfStats {
        timed: timed.len(),
        total_ms: total,
        fastest: (timed[fi].0, timed[fi].1.clone()),
        slowest: (timed[si].0, timed[si].1.clone()),
    })
}


// ---------------------------------------------------------------------------
// Laws
// ---------------------------------------------------------------------------

/// No two answers are about the same account.
pub open spec fn accounts_distinct(v: Seq<(Seq<char>, Seq<char>, Seq<char>, QueryStatus, Option<u64>)>) -> bool {
    forall|i: int, j: int| 0 <= i < j < v.len() ==> !same_account(#[trigger] v[i], #[trigger] v[j])
}

/// Merging keeps the earlier answers first and unchanged, answers for every
/// account of the added ones, and never answers twice for one account.
pub proof fn merge_keeps_accounts_distinct(
    base: Seq<(Seq<char>, Seq<char>, Seq<char>, QueryStatus, Option<u64>)>,
    xs: Seq<(Seq<char>, Seq<char>, Seq<char>, QueryStatus, Option<u64>)>,
)
    requires
        accounts_distinct(base),
    ensures
        accounts_distinct(merged(base, xs)),
        merged(base, xs).take(base.len() as int) == base,
        base.len() <= merged(base, xs).len(),
        forall|k: int|
            0 <= k < xs.len() ==> exists|i: int|
                0 <= i < merged(base, xs).len() && same_account(#[trigger] merged(base, xs)[i], #[trigger] xs[k]),
    decreases xs.len(),
{
    if xs.len() > 0 {
        let ys = xs.drop_last();
        merge_keeps_accounts_distinct(base, ys);
        let m = merged(base, ys);
        let x = xs.last();
        if exists|i: int| 0 <= i < m.len() && same_account(#[trigger] m[i], x) {
            assert forall|k: int| 0 <= k < xs.len() implies exists|i: int|
                0 <= i < merged(base, xs).len() && same_account(#[trigger] merged(base, xs)[i], #[trigger] xs[k]) by {
                assert(merged(base, xs) == m);
                if k < ys.len() {
                    assert(xs[k] == ys[k]);
                    let i = choose|i: int| 0 <= i < m.len() && same_account(#[trigger] m[i], #[trigger] ys[k]);
                    assert(same_account(merged(base, xs)[i], xs[k]));
                } else {
                    let i = choose|i: int| 0 <= i < m.len() && same_account(#[trigger] m[i], x);
                    assert(xs[k] == x);
                    assert(same_account(merged(base, xs)[i], xs[k]));
                }
            }
        } else {
            let r = m.push(x);
            assert(r.take(base.len() as int) =~= m.take(base.len() as int));
            assert forall|i: int, j: int| 0 <= i < j < r.len() implies !same_account(#[trigger] r[i], #[trigger] r[j]) by {
                if j == r.len() - 1 {
                    assert(r[i] == m[i]);
                    if same_account(m[i], x) {
                        assert(0 <= i < m.len() && same_account(m[i], x));
                    }
                } else {
                    assert(r[i] == m[i] && r[j] == m[j]);
                }
            }
            assert forall|k: int| 0 <= k < xs.len() implies exists|i: int|
                0 <= i < r.len() && same_account(#[trigger] r[i], #[trigger] xs[k]) by {
                if k < ys.len() {
                    assert(xs[k] == ys[k]);
                    let i = choose|i: int| 0 <= i < m.len() && same_account(#[trigger] m[i], #[trigger] ys[k]);
                    assert(r[i] == m[i]);
                } else {
                    assert(r[m.len() as int] == x);
                    assert(same_account(x, x));
                }
            }
        }
    }
}

} // verus!
