//! Identity correlation: the signals that several accounts belong to one
//! person, the inferred name and location, and the counts that the confidence
//! score is computed from.

use vstd::prelude::*;
use crate::avatar::{hamming, phash_distance};
use crate::text::{
    chars_of, contains_exec, contains_seq, distinct, distinct_without, is_alphanumeric, lowercase,
    push_distinct, spec_is_alphanumeric, spec_lowercase, string_of, utf8_len, utf8_len_exceeds,
    views,
};
use crate::types::{ClaimedProfile, opt_view};

verus! {

// ---------------------------------------------------------------------------
// Most common value
// ---------------------------------------------------------------------------

/// How often `x` occurs in `s`.
pub open spec fn count_of(s: Seq<Seq<char>>, x: Seq<char>) -> nat
    decreases s.len(),
{
    if s.len() == 0 {
        0
    } else {
        count_of(s.drop_last(), x) + (if s.last() == x { 1nat } else { 0nat })
    }
}

/// `s[i]` occurs at least as often as any element of `s`, and every element
/// before index `i` occurs strictly less often.
pub open spec fn is_first_mode(s: Seq<Seq<char>>, i: int) -> bool {
    &&& 0 <= i < s.len()
    &&& forall|j: int| 0 <= j < s.len() ==> count_of(s, s[j]) <= count_of(s, s[i])
    &&& forall|j: int| 0 <= j < i ==> count_of(s, s[j]) < count_of(s, s[i])
}

/// The most common element of `s`, the earliest one among equally common
/// ones; empty when `s` is empty.
pub open spec fn mode(s: Seq<Seq<char>>) -> Seq<char> {
    if s.len() == 0 {
        Seq::empty()
    } else {
        s[choose|i: int| is_first_mode(s, i)]
    }
}

proof fn lemma_first_mode_is_mode(s: Seq<Seq<char>>, i: int)
    requires
        is_first_mode(s, i),
    ensures
        mode(s) == s[i],
{
    let k = choose|k: int| is_first_mode(s, k);
    assert(is_first_mode(s, k));
    if k < i {
        assert(count_of(s, s[k]) < count_of(s, s[i]));
        assert(count_of(s, s[i]) <= count_of(s, s[k]));
    } else if i < k {
        assert(count_of(s, s[i]) < count_of(s, s[k]));
        assert(count_of(s, s[k]) <= count_of(s, s[i]));
    }
}

proof fn lemma_count_of_take(s: Seq<Seq<char>>, j: int, x: Seq<char>)
    requires
        0 <= j < s.len(),
    ensures
        count_of(s.take(j + 1), x) == count_of(s.take(j), x) + (if s[j] == x { 1nat } else { 0nat }),
{
    assert(s.take(j + 1).drop_last() == s.take(j));
}

/// An element of a non-empty `s` occurs at least once.
proof fn lemma_count_of_member(s: Seq<Seq<char>>, i: int)
    requires
        0 <= i < s.len(),
    ensures
        count_of(s, s[i]) >= 1,
        count_of(s, s[i]) <= s.len(),
    decreases s.len(),
{
    lemma_count_of_le_len(s, s[i]);
    if i < s.len() - 1 {
        assert(s.drop_last()[i] == s[i]);
        lemma_count_of_member(s.drop_last(), i);
    }
}

proof fn lemma_count_of_le_len(s: Seq<Seq<char>>, x: Seq<char>)
    ensures
        count_of(s, x) <= s.len(),
    decreases s.len(),
{
    if s.len() > 0 {
        lemma_count_of_le_len(s.drop_last(), x);
    }
}

/// How often `s[i]` occurs in `s`.
fn count_in(s: &Vec<String>, x: &String) -> (c: usize)
    ensures
        c == count_of(views(s@), x@),
{
    let mut c: usize = 0;
    let mut j: usize = 0;
    proof {
        lemma_count_of_le_len(views(s@), x@);
    }
    while j < s.len()
        invariant
            j <= s@.len(),
            c == count_of(views(s@).take(j as int), x@),
            count_of(views(s@), x@) <= s@.len(),
        decreases s@.len() - j,
    {
        proof {
            lemma_count_of_take(views(s@), j as int, x@);
            lemma_count_of_le_len(views(s@).take(j + 1), x@);
        }
        if s[j] == *x {
            c += 1;
        }
        j += 1;
    }
    assert(views(s@).take(s@.len() as int) == views(s@));
    c
}

/// The index of the most common element of `s` (the earliest among equally
/// common ones), with how often it occurs.
fn mode_index(s: &Vec<String>) -> (r: Option<(usize, usize)>)
    ensures
        s@.len() == 0 ==> r is None,
        s@.len() > 0 ==> (r matches Some((i, c)) && is_first_mode(views(s@), i as int)
            && c == count_of(views(s@), views(s@)[i as int])),
{
    if s.len() == 0 {
        return None;
    }
    let ghost v = views(s@);
    let mut best: usize = 0;
    let mut best_count: usize = count_in(s, &s[0]);
    let mut i: usize = 1;
    while i < s.len()
        invariant
            v == views(s@),
            1 <= i <= s@.len(),
            best < i,
            best_count == count_of(v, v[best as int]),
            forall|j: int| 0 <= j < i ==> count_of(v, v[j]) <= count_of(v, v[best as int]),
            forall|j: int| 0 <= j < best ==> count_of(v, v[j]) < count_of(v, v[best as int]),
        decreases s@.len() - i,
    {
        let c = count_in(s, &s[i]);
        if c > best_count {
            best = i;
            best_count = c;
        }
        i += 1;
    }
    Some((best, best_count))
}

/// The most common of the given strings, the earliest among equally common
/// ones; the empty string when there are none.
pub fn mode_str<'a>(items: &[&'a str]) -> (r: &'a str)
    ensures
        r@ == mode(items@.map_values(|x: &str| x@)),
{
    let mut owned: Vec<String> = Vec::new();
    let mut k: usize = 0;
    while k < items.len()
        invariant
            k <= items@.len(),
            views(owned@) == items@.map_values(|x: &str| x@).take(k as int),
        decreases items@.len() - k,
    {
        let s = String::from_str(items[k]);
        proof {
            crate::text::lemma_views_push(owned@, s);
        }
        owned.push(s);
        assert(items@.map_values(|x: &str| x@).take(k + 1) =~= items@.map_values(|x: &str| x@).take(
            k as int,
        ).push(items@[k as int]@));
        k += 1;
    }
    assert(items@.map_values(|x: &str| x@).take(items@.len() as int) =~= items@.map_values(
        |x: &str| x@,
    ));
    match mode_index(&owned) {
        Some((i, _)) => {
            proof {
                lemma_first_mode_is_mode(views(owned@), i as int);
            }
            items[i]
        },
        None => {
            proof {
                reveal_strlit("");
            }
            ""
        },
    }
}

// ---------------------------------------------------------------------------
// Values gathered from the profiles
// ---------------------------------------------------------------------------

/// A free-text field of a profile.
#[derive(Clone, Copy, PartialEq, Eq, Debug)]
pub enum Field {
    DisplayName,
    Location,
    Website,
    Bio,
}

/// The value of field `f` of profile `p`.
pub open spec fn field_of(p: ClaimedProfile, f: Field) -> Option<Seq<char>> {
    match f {
        Field::DisplayName => opt_view(p.details.display_name),
        Field::Location => opt_view(p.details.location),
        Field::Website => opt_view(p.details.website),
        Field::Bio => opt_view(p.details.bio),
    }
}

/// The present values in `s`, in order.
pub open spec fn somes<A>(s: Seq<Option<A>>) -> Seq<A>
    decreases s.len(),
{
    if s.len() == 0 {
        Seq::empty()
    } else {
        somes(s.drop_last()) + (match s.last() {
            Some(x) => seq![x],
            None => Seq::empty(),
        })
    }
}

/// The values of field `f` over the profiles that have one, in order.
pub open spec fn values_of(ps: Seq<ClaimedProfile>, f: Field) -> Seq<Seq<char>> {
    somes(ps.map_values(|p: ClaimedProfile| field_of(p, f)))
}

/// The avatar hashes of the profiles that have one, in order.
pub open spec fn hashes_of(ps: Seq<ClaimedProfile>) -> Seq<u64> {
    somes(ps.map_values(|p: ClaimedProfile| p.avatar_phash))
}

/// All strings of a list of lists, in order.
pub open spec fn flatten(s: Seq<Seq<Seq<char>>>) -> Seq<Seq<char>>
    decreases s.len(),
{
    if s.len() == 0 {
        Seq::empty()
    } else {
        flatten(s.drop_last()) + s.last()
    }
}

/// Every e-mail address found on the profiles, in order.
pub open spec fn all_emails(ps: Seq<ClaimedProfile>) -> Seq<Seq<char>> {
    flatten(ps.map_values(|p: ClaimedProfile| views(p.details.emails@)))
}

/// Every phone number found on the profiles, in order.
pub open spec fn all_phones(ps: Seq<ClaimedProfile>) -> Seq<Seq<char>> {
    flatten(ps.map_values(|p: ClaimedProfile| views(p.details.phone_numbers@)))
}

/// Every URL linked from the profiles, in order.
pub open spec fn all_links(ps: Seq<ClaimedProfile>) -> Seq<Seq<char>> {
    flatten(ps.map_values(|p: ClaimedProfile| views(p.details.linked_urls@)))
}

/// The field `f` of a profile.
fn field_ref(p: &ClaimedProfile, f: Field) -> (r: &Option<String>)
    ensures
        opt_view(*r) == field_of(*p, f),
{
    match f {
        Field::DisplayName => &p.details.display_name,
        Field::Location => &p.details.location,
        Field::Website => &p.details.website,
        Field::Bio => &p.details.bio,
    }
}

proof fn lemma_somes_take<A>(s: Seq<Option<A>>, i: int)
    requires
        0 <= i < s.len(),
    ensures
        somes(s.take(i + 1)) == somes(s.take(i)) + (match s[i] {
            Some(x) => seq![x],
            None => Seq::empty(),
        }),
{
    assert(s.take(i + 1).drop_last() == s.take(i));
}

/// The values of field `f` over the profiles that have one, in order.
pub fn collect_values(profiles: &[ClaimedProfile], f: Field) -> (r: Vec<String>)
    ensures
        views(r@) == values_of(profiles@, f),
{
    let ghost m = profiles@.map_values(|p: ClaimedProfile| field_of(p, f));
    let mut r: Vec<String> = Vec::new();
    let mut i: usize = 0;
    while i < profiles.len()
        invariant
            i <= profiles@.len(),
            m == profiles@.map_values(|p: ClaimedProfile| field_of(p, f)),
            views(r@) == somes(m.take(i as int)),
        decreases profiles@.len() - i,
    {
        proof {
            lemma_somes_take(m, i as int);
        }
        match field_ref(&profiles[i], f) {
            Some(v) => {
                let c = v.clone();
                proof {
                    crate::text::lemma_views_push(r@, c);
                }
                r.push(c);
            },
            None => {
                assert(views(r@) =~= somes(m.take(i as int)) + Seq::<Seq<char>>::empty());
            },
        }
        i += 1;
    }
    assert(m.take(profiles@.len() as int) == m);
    r
}

/// The avatar hashes of the profiles that have one, in order.
pub fn collect_hashes(profiles: &[ClaimedProfile]) -> (r: Vec<u64>)
    ensures
        r@ == hashes_of(profiles@),
{
    let ghost m = profiles@.map_values(|p: ClaimedProfile| p.avatar_phash);
    let mut r: Vec<u64> = Vec::new();
    let mut i: usize = 0;
    while i < profiles.len()
        invariant
            i <= profiles@.len(),
            m == profiles@.map_values(|p: ClaimedProfile| p.avatar_phash),
            r@ == somes(m.take(i as int)),
        decreases profiles@.len() - i,
    {
        proof {
            lemma_somes_take(m, i as int);
        }
        match profiles[i].avatar_phash {
            Some(h) => {
                r.push(h);
            },
            None => {
                assert(r@ =~= somes(m.take(i as int)) + Seq::<u64>::empty());
            },
        }
        i += 1;
    }
    assert(m.take(profiles@.len() as int) == m);
    r
}

// ---------------------------------------------------------------------------
// Confidence factors
// ---------------------------------------------------------------------------

/// How many hashes of `s` lie within distance 10 of `h`.
pub open spec fn close_with(s: Seq<u64>, h: u64) -> nat
    decreases s.len(),
{
    if s.len() == 0 {
        0
    } else {
        close_with(s.drop_last(), h) + (if hamming(s.last(), h) < 10 { 1nat } else { 0nat })
    }
}

/// How many pairs of hashes of `s` lie within distance 10 of each other.
pub open spec fn close_pairs(s: Seq<u64>) -> nat
    decreases s.len(),
{
    if s.len() == 0 {
        0
    } else {
        close_pairs(s.drop_last()) + close_with(s.drop_last(), s.last())
    }
}

/// Some profile's URL occurs inside `u`.
pub open spec fn links_to_found(ps: Seq<ClaimedProfile>, u: Seq<char>) -> bool {
    exists|q: int| 0 <= q < ps.len() && contains_seq(u, ps[q].site_url@)
}

/// How many of the URLs `us` have some profile's URL inside them.
pub open spec fn count_linking(ps: Seq<ClaimedProfile>, us: Seq<Seq<char>>) -> nat
    decreases us.len(),
{
    if us.len() == 0 {
        0
    } else {
        count_linking(ps, us.drop_last()) + (if links_to_found(ps, us.last()) { 1nat } else { 0nat })
    }
}

/// How often the most common element of `s` occurs (0 when `s` is empty).
pub open spec fn mode_count(s: Seq<Seq<char>>) -> nat {
    if s.len() == 0 {
        0
    } else {
        count_of(s, mode(s))
    }
}

/// The counts from which the confidence that a set of accounts belongs to one
/// person is scored.
#[derive(Clone, Copy, PartialEq, Eq, Debug)]
pub struct ConfidenceFactors {
    /// How many accounts there are.
    pub profile_count: usize,
    /// How many accounts show a display name.
    pub name_count: usize,
    /// How many display names equal the most common one.
    pub name_matches: usize,
    /// How many accounts have an avatar hash.
    pub avatar_count: usize,
    /// How many pairs of avatar hashes there are (0 with fewer than two).
    pub avatar_pairs: usize,
    /// How many pairs of avatar hashes differ in fewer than 10 bits (0 with
    /// fewer than two hashes).
    pub avatar_matches: usize,
    /// How many linked URLs contain the URL of one of the accounts.
    pub cross_links: usize,
    /// How many accounts show a location.
    pub location_count: usize,
    /// How many locations equal the most common one (0 with fewer than two
    /// locations).
    pub location_matches: usize,
}

/// The confidence factors of a set of accounts.
pub open spec fn factors_match(c: ConfidenceFactors, ps: Seq<ClaimedProfile>) -> bool {
    let names = values_of(ps, Field::DisplayName);
    let hs = hashes_of(ps);
    let locs = values_of(ps, Field::Location);
    &&& c.profile_count == ps.len()
    &&& c.name_count == names.len()
    &&& c.name_matches == mode_count(names)
    &&& c.avatar_count == hs.len()
    &&& c.avatar_pairs == (if hs.len() >= 2 { hs.len() * (hs.len() - 1) / 2 } else { 0 })
    &&& c.avatar_matches == (if hs.len() >= 2 { close_pairs(hs) } else { 0 })
    &&& c.cross_links == count_linking(ps, all_links(ps))
    &&& c.location_count == locs.len()
    &&& c.location_matches == (if locs.len() >= 2 { mode_count(locs) } else { 0 })
}

/// The counts fit the machine word in which they are computed.
pub open spec fn factors_fit(ps: Seq<ClaimedProfile>) -> bool {
    &&& hashes_of(ps).len() * (hashes_of(ps).len() - 1) <= usize::MAX
    &&& all_links(ps).len() <= usize::MAX
}

proof fn lemma_somes_len<A>(s: Seq<Option<A>>)
    ensures
        somes(s).len() <= s.len(),
    decreases s.len(),
{
    if s.len() > 0 {
        lemma_somes_len(s.drop_last());
    }
}

proof fn lemma_close_with_le(s: Seq<u64>, h: u64)
    ensures
        close_with(s, h) <= s.len(),
    decreases s.len(),
{
    if s.len() > 0 {
        lemma_close_with_le(s.drop_last(), h);
    }
}

proof fn lemma_close_pairs_le(s: Seq<u64>)
    ensures
        2 * close_pairs(s) <= s.len() * (s.len() - 1),
    decreases s.len(),
{
    if s.len() > 0 {
        let t = s.drop_last();
        lemma_close_pairs_le(t);
        lemma_close_with_le(t, s.last());
        let n = s.len() as int;
        assert(2 * close_pairs(t) <= (n - 1) * (n - 2));
        assert((n - 1) * (n - 2) + 2 * (n - 1) == n * (n - 1)) by (nonlinear_arith);
    }
}

proof fn lemma_count_linking_le(ps: Seq<ClaimedProfile>, us: Seq<Seq<char>>)
    ensures
        count_linking(ps, us) <= us.len(),
    decreases us.len(),
{
    if us.len() > 0 {
        lemma_count_linking_le(ps, us.drop_last());
    }
}

proof fn lemma_flatten_take(s: Seq<Seq<Seq<char>>>, i: int)
    requires
        0 <= i < s.len(),
    ensures
        flatten(s.take(i + 1)) == flatten(s.take(i)) + s[i],
{
    assert(s.take(i + 1).drop_last() == s.take(i));
}

/// Whether some profile's URL occurs inside `u`.
fn links_to_found_exec(profiles: &[ClaimedProfile], u: &String) -> (r: bool)
    ensures
        r == links_to_found(profiles@, u@),
{
    let uc = chars_of(u.as_str());
    let mut q: usize = 0;
    while q < profiles.len()
        invariant
            q <= profiles@.len(),
            uc@ == u@,
            forall|k: int| 0 <= k < q ==> !contains_seq(u@, profiles@[k].site_url@),
        decreases profiles@.len() - q,
    {
        let sc = chars_of(profiles[q].site_url.as_str());
        if contains_exec(&uc, &sc) {
            return true;
        }
        q += 1;
    }
    false
}

/// How many pairs of `hs` differ in fewer than 10 bits.
fn count_close_pairs(hs: &Vec<u64>) -> (c: usize)
    requires
        hs@.len() * (hs@.len() - 1) <= usize::MAX,
    ensures
        c == close_pairs(hs@),
{
    let mut c: usize = 0;
    let mut j: usize = 0;
    while j < hs.len()
        invariant
            j <= hs@.len(),
            hs@.len() * (hs@.len() - 1) <= usize::MAX,
            c == close_pairs(hs@.take(j as int)),
        decreases hs@.len() - j,
    {
        assert(hs@.take(j + 1).drop_last() == hs@.take(j as int));
        assert(hs@.take(j + 1).last() == hs@[j as int]);
        proof {
            lemma_close_pairs_le(hs@.take(j + 1));
            let n = hs@.len() as int;
            let m = j + 1;
            assert(m * (m - 1) <= n * (n - 1)) by (nonlinear_arith)
                requires
                    1 <= m <= n,
            ;
        }
        let mut i: usize = 0;
        let ghost base = c;
        while i < j
            invariant
                i <= j < hs@.len(),
                base == close_pairs(hs@.take(j as int)),
                c == base + close_with(hs@.take(i as int), hs@[j as int]),
                2 * close_pairs(hs@.take(j + 1)) <= usize::MAX,
                close_pairs(hs@.take(j + 1)) == base + close_with(hs@.take(j as int), hs@[j as int]),
            decreases j - i,
        {
            assert(hs@.take(i + 1).drop_last() == hs@.take(i as int));
            proof {
                lemma_close_with_le(hs@.take(i + 1), hs@[j as int]);
                lemma_close_with_mono(hs@.take(j as int), i as int + 1, hs@[j as int]);
                assert(hs@.take(j as int).take(i + 1) == hs@.take(i + 1));
            }
            if phash_distance(hs[i], hs[j]) < 10 {
                c += 1;
            }
            i += 1;
        }
        assert(hs@.take(j as int).take(j as int) == hs@.take(j as int));
        j += 1;
    }
    assert(hs@.take(hs@.len() as int) == hs@);
    c
}

proof fn lemma_close_with_mono(s: Seq<u64>, i: int, h: u64)
    requires
        0 <= i <= s.len(),
    ensures
        close_with(s.take(i), h) <= close_with(s, h),
    decreases s.len(),
{
    if i < s.len() {
        assert(s.drop_last().take(i) == s.take(i));
        lemma_close_with_mono(s.drop_last(), i, h);
    } else {
        assert(s.take(i) == s);
    }
}

/// How many of the linked URLs of the profiles contain some profile's URL.
fn count_cross_links(profiles: &[ClaimedProfile]) -> (c: usize)
    requires
        all_links(profiles@).len() <= usize::MAX,
    ensures
        c == count_linking(profiles@, all_links(profiles@)),
{
    let ghost m = profiles@.map_values(|p: ClaimedProfile| views(p.details.linked_urls@));
    let mut c: usize = 0;
    let mut i: usize = 0;
    while i < profiles.len()
        invariant
            i <= profiles@.len(),
            m == profiles@.map_values(|p: ClaimedProfile| views(p.details.linked_urls@)),
            flatten(m).len() <= usize::MAX,
            c == count_linking(profiles@, flatten(m.take(i as int))),
        decreases profiles@.len() - i,
    {
        proof {
            lemma_flatten_take(m, i as int);
            lemma_flatten_prefix_len(m, i as int + 1);
        }
        let links = &profiles[i].details.linked_urls;
        let mut j: usize = 0;
        let ghost pre = flatten(m.take(i as int));
        while j < links.len()
            invariant
                i < profiles@.len(),
                j <= links@.len(),
                links == &profiles@[i as int].details.linked_urls,
                m[i as int] == views(links@),
                pre + m[i as int] == flatten(m.take(i + 1)),
                flatten(m.take(i + 1)).len() <= usize::MAX,
                c == count_linking(profiles@, pre + m[i as int].take(j as int)),
            decreases links@.len() - j,
        {
            let ghost seen = pre + m[i as int].take(j as int);
            assert(pre + m[i as int].take(j + 1) == seen.push(links@[j as int]@));
            assert((pre + m[i as int].take(j + 1)).drop_last() == seen);
            proof {
                lemma_count_linking_le(profiles@, pre + m[i as int].take(j + 1));
            }
            if links_to_found_exec(profiles, &links[j]) {
                c += 1;
            }
            j += 1;
        }
        assert(m[i as int].take(links@.len() as int) == m[i as int]);
        i += 1;
    }
    assert(m.take(profiles@.len() as int) == m);
    c
}

proof fn lemma_flatten_prefix_len(s: Seq<Seq<Seq<char>>>, i: int)
    requires
        0 <= i <= s.len(),
    ensures
        flatten(s.take(i)).len() <= flatten(s).len(),
    decreases s.len(),
{
    if i < s.len() {
        assert(s.drop_last().take(i) == s.take(i));
        lemma_flatten_prefix_len(s.drop_last(), i);
    } else {
        assert(s.take(i) == s);
    }
}

/// Whether the counts of the profiles fit the machine word in which they are
/// computed (see [`factors_fit`]): the check to make before
/// [`confidence_factors`] or [`build_identity_cluster`].
pub fn cluster_fits(profiles: &[ClaimedProfile]) -> (r: bool)
    ensures
        r == factors_fit(profiles@),
{
    let ghost m = profiles@.map_values(|p: ClaimedProfile| views(p.details.linked_urls@));
    let mut total: u128 = 0;
    let mut i: usize = 0;
    while i < profiles.len()
        invariant
            i <= profiles@.len(),
            m == profiles@.map_values(|p: ClaimedProfile| views(p.details.linked_urls@)),
            total == flatten(m.take(i as int)).len(),
            total <= i * 0xffff_ffff_ffff_ffff,
        decreases profiles@.len() - i,
    {
        proof {
            lemma_flatten_take(m, i as int);
            assert(m[i as int].len() == profiles@[i as int].details.linked_urls@.len());
            assert((i + 1) * 0xffff_ffff_ffff_ffffnat <= 0xffff_ffff_ffff_ffff * 0xffff_ffff_ffff_ffffnat) by (nonlinear_arith)
                requires
                    i < 0xffff_ffff_ffff_ffffnat,
            ;
        }
        total = total + profiles[i].details.linked_urls.len() as u128;
        i += 1;
    }
    assert(m.take(profiles@.len() as int) =~= m);
    let hashes = collect_hashes(profiles);
    let h = hashes.len() as u128;
    let pairs_fit = if h == 0 {
        true
    } else {
        assert(h * (h - 1) <= 0xffff_ffff_ffff_ffff_ffff_ffff_ffff_ffff) by (nonlinear_arith)
            requires
                1 <= h <= 0xffff_ffff_ffff_ffff,
        ;
        h * (h - 1) <= usize::MAX as u128
    };
    proof {
        let n = hashes_of(profiles@).len() as int;
        assert(h == n);
        assert(n * (n - 1) == h * (h - 1));
        if n == 0 {
            assert(n * (n - 1) == 0) by (nonlinear_arith)
                requires
                    n == 0,
            ;
        }
    }
    assert(total == all_links(profiles@).len());
    pairs_fit && total <= usize::MAX as u128
}

/// The counts from which the confidence that `profiles` belong to one person
/// is scored: agreeing display names, matching avatars, links between the
/// accounts, agreeing locations, and the number of accounts.
pub fn confidence_factors(profiles: &[ClaimedProfile]) -> (c: ConfidenceFactors)
    requires
        factors_fit(profiles@),
    ensures
        factors_match(c, profiles@),
{
    let names = collect_values(profiles, Field::DisplayName);
    let name_matches = match mode_index(&names) {
        Some((i, cnt)) => {
            proof {
                lemma_first_mode_is_mode(views(names@), i as int);
            }
            cnt
        },
        None => 0,
    };
    let hashes = collect_hashes(profiles);
    let (avatar_pairs, avatar_matches) = if hashes.len() >= 2 {
        let n = hashes.len();
        (n * (n - 1) / 2, count_close_pairs(&hashes))
    } else {
        (0, 0)
    };
    let cross_links = count_cross_links(profiles);
    let locs = collect_values(profiles, Field::Location);
    let location_matches = if locs.len() >= 2 {
        match mode_index(&locs) {
            Some((i, cnt)) => {
                proof {
                    lemma_first_mode_is_mode(views(locs@), i as int);
                }
                cnt
            },
            None => 0,
        }
    } else {
        0
    };
    ConfidenceFactors {
        profile_count: profiles.len(),
        name_count: names.len(),
        name_matches,
        avatar_count: hashes.len(),
        avatar_pairs,
        avatar_matches,
        cross_links,
        location_count: locs.len(),
        location_matches,
    }
}

/// The confidence factors are consistent: agreeing names are among the names,
/// which are among the accounts; matching avatar pairs are among the pairs;
/// agreeing locations are among the locations; and a non-empty list of names
/// agrees at least with itself. Each ratio the score is built from lies
/// between 0 and 1.
pub proof fn confidence_factors_are_ratios(c: ConfidenceFactors, ps: Seq<ClaimedProfile>)
    requires
        factors_match(c, ps),
    ensures
        c.name_matches <= c.name_count <= c.profile_count,
        c.name_count > 0 ==> c.name_matches >= 1,
        c.avatar_matches <= c.avatar_pairs,
        c.avatar_count <= c.profile_count,
        c.location_matches <= c.location_count <= c.profile_count,
{
    let names = values_of(ps, Field::DisplayName);
    let hs = hashes_of(ps);
    let locs = values_of(ps, Field::Location);
    lemma_somes_len(ps.map_values(|p: ClaimedProfile| field_of(p, Field::DisplayName)));
    lemma_somes_len(ps.map_values(|p: ClaimedProfile| field_of(p, Field::Location)));
    lemma_somes_len(ps.map_values(|p: ClaimedProfile| p.avatar_phash));
    if names.len() > 0 {
        let k = choose|k: int| is_first_mode(names, k);
        lemma_mode_exists(names);
        lemma_count_of_member(names, k);
    }
    if locs.len() > 0 {
        let k = choose|k: int| is_first_mode(locs, k);
        lemma_mode_exists(locs);
        lemma_count_of_member(locs, k);
    }
    if hs.len() >= 2 {
        lemma_close_pairs_le(hs);
    }
}

proof fn best_upto(s: Seq<Seq<char>>, i: int) -> (b: int)
    requires
        1 <= i <= s.len(),
    ensures
        0 <= b < i,
        forall|j: int| 0 <= j < i ==> count_of(s, s[j]) <= count_of(s, s[b]),
        forall|j: int| 0 <= j < b ==> count_of(s, s[j]) < count_of(s, s[b]),
    decreases i,
{
    if i == 1 {
        0
    } else {
        let b = best_upto(s, i - 1);
        if count_of(s, s[i - 1]) > count_of(s, s[b]) {
            i - 1
        } else {
            b
        }
    }
}

/// A non-empty sequence has a first most common element.
proof fn lemma_mode_exists(s: Seq<Seq<char>>)
    requires
        s.len() > 0,
    ensures
        exists|i: int| is_first_mode(s, i),
{
    let best = best_upto(s, s.len() as int);
    assert(is_first_mode(s, best));
}

// ---------------------------------------------------------------------------
// Identity cluster
// ---------------------------------------------------------------------------

/// A non-negative fraction `num / den`, kept exact.
#[derive(Clone, Copy, PartialEq, Eq, Debug)]
pub struct Ratio {
    pub num: u128,
    pub den: u128,
}

/// A sign that several accounts belong to one person.
#[derive(Clone, Debug)]
pub enum Signal {
    SameName(String),
    SameAvatar { site_a: String, site_b: String, hash_distance: u32 },
    CrossLinked { from_site: String, to_url: String },
    SameLocation(String),
    SameWebsite(String),
    SameEmail(String),
    SameBio { similarity: Ratio },
}

/// The mathematical meaning of a [`Signal`].
pub enum SignalView {
    SameName(Seq<char>),
    SameAvatar { site_a: Seq<char>, site_b: Seq<char>, hash_distance: nat },
    CrossLinked { from_site: Seq<char>, to_url: Seq<char> },
    SameLocation(Seq<char>),
    SameWebsite(Seq<char>),
    SameEmail(Seq<char>),
    SameBio { num: nat, den: nat },
}

impl View for Signal {
    type V = SignalView;

    open spec fn view(&self) -> SignalView {
        match self {
            Signal::SameName(n) => SignalView::SameName(n@),
            Signal::SameAvatar { site_a, site_b, hash_distance } => SignalView::SameAvatar {
                site_a: site_a@,
                site_b: site_b@,
                hash_distance: *hash_distance as nat,
            },
            Signal::CrossLinked { from_site, to_url } => SignalView::CrossLinked {
                from_site: from_site@,
                to_url: to_url@,
            },
            Signal::SameLocation(l) => SignalView::SameLocation(l@),
            Signal::SameWebsite(w) => SignalView::SameWebsite(w@),
            Signal::SameEmail(e) => SignalView::SameEmail(e@),
            Signal::SameBio { similarity } => SignalView::SameBio {
                num: similarity.num as nat,
                den: similarity.den as nat,
            },
        }
    }
}

/// The views of a list of signals.
pub open spec fn signal_views(v: Seq<Signal>) -> Seq<SignalView> {
    v.map_values(|s: Signal| s@)
}

/// A shared-name signal when the first display name appears more than once.
pub open spec fn name_signals(ps: Seq<ClaimedProfile>) -> Seq<SignalView> {
    let names = values_of(ps, Field::DisplayName);
    if names.len() > 0 && count_of(names, names[0]) > 1 {
        seq![SignalView::SameName(names[0])]
    } else {
        Seq::empty()
    }
}

/// A shared-avatar signal for accounts `i` and `j` when both have avatar
/// hashes that differ in fewer than 10 bits.
pub open spec fn avatar_pair(ps: Seq<ClaimedProfile>, i: int, j: int) -> Seq<SignalView> {
    match (ps[i].avatar_phash, ps[j].avatar_phash) {
        (Some(a), Some(b)) => if hamming(a, b) < 10 {
            seq![
                SignalView::SameAvatar {
                    site_a: ps[i].site_name@,
                    site_b: ps[j].site_name@,
                    hash_distance: hamming(a, b),
                },
            ]
        } else {
            Seq::empty()
        },
        _ => Seq::empty(),
    }
}

/// The shared-avatar signals of account `i` with the accounts `i < j < end`.
pub open spec fn avatar_row(ps: Seq<ClaimedProfile>, i: int, end: int) -> Seq<SignalView>
    decreases end - i,
{
    if end <= i + 1 {
        Seq::empty()
    } else {
        avatar_row(ps, i, end - 1) + avatar_pair(ps, i, end - 1)
    }
}

/// The shared-avatar signals of the accounts before `end` with later accounts.
pub open spec fn avatar_signals(ps: Seq<ClaimedProfile>, end: int) -> Seq<SignalView>
    decreases end,
{
    if end <= 0 {
        Seq::empty()
    } else {
        avatar_signals(ps, end - 1) + avatar_row(ps, end - 1, ps.len() as int)
    }
}

/// `u`, linked from account `k`, contains the URL of an account on another site.
pub open spec fn links_elsewhere(ps: Seq<ClaimedProfile>, k: int, u: Seq<char>) -> bool {
    exists|q: int|
        0 <= q < ps.len() && ps[q].site_name@ != ps[k].site_name@ && contains_seq(
            u,
            ps[q].site_url@,
        )
}

/// The cross-link signals of the first `end` URLs linked from account `k`.
pub open spec fn cross_row(ps: Seq<ClaimedProfile>, k: int, end: int) -> Seq<SignalView>
    decreases end,
{
    if end <= 0 {
        Seq::empty()
    } else {
        let u = ps[k].details.linked_urls@[end - 1]@;
        cross_row(ps, k, end - 1) + (if links_elsewhere(ps, k, u) {
            seq![SignalView::CrossLinked { from_site: ps[k].site_name@, to_url: u }]
        } else {
            Seq::empty()
        })
    }
}

/// The cross-link signals of the accounts before `end`.
pub open spec fn cross_signals(ps: Seq<ClaimedProfile>, end: int) -> Seq<SignalView>
    decreases end,
{
    if end <= 0 {
        Seq::empty()
    } else {
        cross_signals(ps, end - 1) + cross_row(
            ps,
            end - 1,
            ps[end - 1].details.linked_urls@.len() as int,
        )
    }
}

/// A shared-location signal naming the most common location, when at least
/// two accounts show a location.
pub open spec fn location_signals(ps: Seq<ClaimedProfile>) -> Seq<SignalView> {
    let locs = values_of(ps, Field::Location);
    if locs.len() >= 2 {
        seq![SignalView::SameLocation(mode(locs))]
    } else {
        Seq::empty()
    }
}

/// A shared-website signal for each website of `d` that appears more than
/// once in `all`.
pub open spec fn repeated_websites(d: Seq<Seq<char>>, all: Seq<Seq<char>>) -> Seq<SignalView>
    decreases d.len(),
{
    if d.len() == 0 {
        Seq::empty()
    } else {
        repeated_websites(d.drop_last(), all) + (if count_of(all, d.last()) > 1 {
            seq![SignalView::SameWebsite(d.last())]
        } else {
            Seq::empty()
        })
    }
}

/// A shared-website signal for each website shown by more than one account,
/// in order of first appearance.
pub open spec fn website_signals(ps: Seq<ClaimedProfile>) -> Seq<SignalView> {
    let webs = values_of(ps, Field::Website);
    repeated_websites(distinct(webs), webs)
}

/// An e-mail signal for each address of `es`.
pub open spec fn email_signal_list(es: Seq<Seq<char>>) -> Seq<SignalView>
    decreases es.len(),
{
    if es.len() == 0 {
        Seq::empty()
    } else {
        email_signal_list(es.drop_last()).push(SignalView::SameEmail(es.last()))
    }
}

/// All signals of a set of accounts, in the order they are reported: shared
/// name, shared avatars, cross links, shared location, shared websites and
/// e-mail addresses.
pub open spec fn spec_signals(ps: Seq<ClaimedProfile>) -> Seq<SignalView> {
    name_signals(ps) + avatar_signals(ps, ps.len() as int) + cross_signals(ps, ps.len() as int)
        + location_signals(ps) + website_signals(ps) + email_signal_list(
        distinct(all_emails(ps)),
    )
}

/// The most common value of a field, when any account shows one.
pub open spec fn inferred(ps: Seq<ClaimedProfile>, f: Field) -> Option<Seq<char>> {
    if values_of(ps, f).len() > 0 {
        Some(mode(values_of(ps, f)))
    } else {
        None
    }
}

/// What is known of the person behind a set of accounts.
#[derive(Clone, Debug)]
pub struct IdentityCluster {
    pub accounts: Vec<ClaimedProfile>,
    pub shared_signals: Vec<Signal>,
    pub inferred_name: Option<String>,
    pub inferred_location: Option<String>,
    pub emails_found: Vec<String>,
    pub phones_found: Vec<String>,
    pub all_linked_urls: Vec<String>,
    pub confidence: ConfidenceFactors,
}

proof fn lemma_signal_views_push(v: Seq<Signal>, s: Signal)
    ensures
        signal_views(v.push(s)) == signal_views(v).push(s@),
{
    assert(signal_views(v.push(s)) =~= signal_views(v).push(s@));
}

/// The distinct strings of a list of lists (in order of first appearance).
fn distinct_flat(lists: &Vec<&Vec<String>>, Ghost(m): Ghost<Seq<Seq<Seq<char>>>>) -> (r: Vec<String>)
    requires
        m.len() == lists@.len(),
        forall|i: int| 0 <= i < m.len() ==> m[i] == views(lists@[i]@),
    ensures
        views(r@) == distinct(flatten(m)),
{
    let mut r: Vec<String> = Vec::new();
    let mut i: usize = 0;
    while i < lists.len()
        invariant
            i <= lists@.len(),
            m.len() == lists@.len(),
            forall|k: int| 0 <= k < m.len() ==> m[k] == views(lists@[k]@),
            views(r@) == distinct_without(flatten(m.take(i as int)), None),
        decreases lists@.len() - i,
    {
        let list = lists[i];
        let mut j: usize = 0;
        let ghost pre = flatten(m.take(i as int));
        proof {
            lemma_flatten_take(m, i as int);
        }
        while j < list.len()
            invariant
                i < lists@.len(),
                j <= list@.len(),
                m[i as int] == views(list@),
                pre + m[i as int] == flatten(m.take(i + 1)),
                views(r@) == distinct_without(pre + m[i as int].take(j as int), None),
            decreases list@.len() - j,
        {
            let ghost seen = pre + m[i as int].take(j as int);
            let c = list[j].clone();
            push_distinct(&mut r, c, None, Ghost(seen));
            assert(pre + m[i as int].take(j + 1) == seen.push(c@));
            j += 1;
        }
        assert(m[i as int].take(list@.len() as int) == m[i as int]);
        i += 1;
    }
    assert(m.take(lists@.len() as int) == m);
    r
}

/// Appends the shared-avatar signals of the accounts.
fn append_avatar_signals(profiles: &[ClaimedProfile], sigs: &mut Vec<Signal>)
    ensures
        signal_views(final(sigs)@) == signal_views(old(sigs)@) + avatar_signals(
            profiles@,
            profiles@.len() as int,
        ),
{
    let ghost ps = profiles@;
    let ghost start = signal_views(sigs@);
    let n = profiles.len();
    let mut i: usize = 0;
    while i < n
        invariant
            n == ps.len(),
            ps == profiles@,
            i <= n,
            signal_views(sigs@) == start + avatar_signals(ps, i as int),
        decreases n - i,
    {
        let mut j: usize = i + 1;
        let ghost row_start = signal_views(sigs@);
        while j < n
            invariant
                n == ps.len(),
                ps == profiles@,
                i < n,
                i + 1 <= j <= n,
                signal_views(sigs@) == row_start + avatar_row(ps, i as int, j as int),
            decreases n - j,
        {
            match (profiles[i].avatar_phash, profiles[j].avatar_phash) {
                (Some(h1), Some(h2)) => {
                    let dist = phash_distance(h1, h2);
                    if dist < 10 {
                        let sig = Signal::SameAvatar {
                            site_a: profiles[i].site_name.clone(),
                            site_b: profiles[j].site_name.clone(),
                            hash_distance: dist,
                        };
                        proof {
                            lemma_signal_views_push(sigs@, sig);
                        }
                        sigs.push(sig);
                    } else {
                        assert(avatar_pair(ps, i as int, j as int) =~= Seq::<SignalView>::empty());
                    }
                },
                _ => {
                    assert(avatar_pair(ps, i as int, j as int) =~= Seq::<SignalView>::empty());
                },
            }
            assert(avatar_row(ps, i as int, j + 1) == avatar_row(ps, i as int, j as int) + avatar_pair(ps, i as int, j as int));
            j += 1;
        }
        i += 1;
    }
}

/// Whether `u`, linked from account `k`, contains the URL of an account on
/// another site.
fn links_elsewhere_exec(profiles: &[ClaimedProfile], k: usize, u: &String) -> (r: bool)
    requires
        k < profiles@.len(),
    ensures
        r == links_elsewhere(profiles@, k as int, u@),
{
    let uc = chars_of(u.as_str());
    let mut q: usize = 0;
    while q < profiles.len()
        invariant
            q <= profiles@.len(),
            k < profiles@.len(),
            uc@ == u@,
            forall|x: int|
                0 <= x < q ==> !(profiles@[x].site_name@ != profiles@[k as int].site_name@
                    && contains_seq(u@, profiles@[x].site_url@)),
        decreases profiles@.len() - q,
    {
        if profiles[q].site_name != profiles[k].site_name {
            let sc = chars_of(profiles[q].site_url.as_str());
            if contains_exec(&uc, &sc) {
                return true;
            }
        }
        q += 1;
    }
    false
}

/// Appends the cross-link signals of the accounts.
fn append_cross_signals(profiles: &[ClaimedProfile], sigs: &mut Vec<Signal>)
    ensures
        signal_views(final(sigs)@) == signal_views(old(sigs)@) + cross_signals(
            profiles@,
            profiles@.len() as int,
        ),
{
    let ghost ps = profiles@;
    let ghost start = signal_views(sigs@);
    let n = profiles.len();
    let mut k: usize = 0;
    while k < n
        invariant
            n == ps.len(),
            ps == profiles@,
            k <= n,
            signal_views(sigs@) == start + cross_signals(ps, k as int),
        decreases n - k,
    {
        let links = &profiles[k].details.linked_urls;
        let ghost row_start = signal_views(sigs@);
        let mut m: usize = 0;
        while m < links.len()
            invariant
                n == ps.len(),
                ps == profiles@,
                k < n,
                m <= links@.len(),
                links == &ps[k as int].details.linked_urls,
                signal_views(sigs@) == row_start + cross_row(ps, k as int, m as int),
            decreases links@.len() - m,
        {
            if links_elsewhere_exec(profiles, k, &links[m]) {
                let sig = Signal::CrossLinked {
                    from_site: profiles[k].site_name.clone(),
                    to_url: links[m].clone(),
                };
                proof {
                    lemma_signal_views_push(sigs@, sig);
                }
                sigs.push(sig);
            }
            assert(cross_row(ps, k as int, m + 1) =~= cross_row(ps, k as int, m as int) + (
            if links_elsewhere(ps, k as int, links@[m as int]@) {
                seq![SignalView::CrossLinked { from_site: ps[k as int].site_name@, to_url: links@[m as int]@ }]
            } else {
                Seq::empty()
            }));
            m += 1;
        }
        k += 1;
    }
}

/// Appends a shared-website signal for each website shown more than once.
fn append_website_signals(profiles: &[ClaimedProfile], sigs: &mut Vec<Signal>)
    ensures
        signal_views(final(sigs)@) == signal_views(old(sigs)@) + website_signals(profiles@),
{
    let webs = collect_values(profiles, Field::Website);
    let mut d: Vec<String> = Vec::new();
    let mut i: usize = 0;
    while i < webs.len()
        invariant
            i <= webs@.len(),
            views(d@) == distinct_without(views(webs@).take(i as int), None),
        decreases webs@.len() - i,
    {
        let c = webs[i].clone();
        push_distinct(&mut d, c, None, Ghost(views(webs@).take(i as int)));
        assert(views(webs@).take(i + 1) == views(webs@).take(i as int).push(c@));
        i += 1;
    }
    assert(views(webs@).take(webs@.len() as int) == views(webs@));
    let ghost start = signal_views(sigs@);
    let ghost all = views(webs@);
    let mut k: usize = 0;
    while k < d.len()
        invariant
            k <= d@.len(),
            all == views(webs@),
            signal_views(sigs@) == start + repeated_websites(views(d@).take(k as int), all),
        decreases d@.len() - k,
    {
        assert(views(d@).take(k + 1).drop_last() == views(d@).take(k as int));
        if count_in(&webs, &d[k]) > 1 {
            let sig = Signal::SameWebsite(d[k].clone());
            proof {
                lemma_signal_views_push(sigs@, sig);
            }
            sigs.push(sig);
        } else {
            assert(repeated_websites(views(d@).take(k + 1), all) =~= repeated_websites(views(d@).take(k as int), all) + Seq::<SignalView>::empty());
        }
        k += 1;
    }
    assert(views(d@).take(d@.len() as int) == views(d@));
}

/// Groups the accounts believed to belong to one person and reports why:
/// the shared-name, shared-avatar, cross-link, shared-location,
/// shared-website and e-mail signals; the most common display name and
/// location; every e-mail address, phone number and linked URL once; and the
/// counts the confidence score is computed from.
pub fn build_identity_cluster(profiles: Vec<ClaimedProfile>) -> (c: IdentityCluster)
    requires
        factors_fit(profiles@),
    ensures
        c.accounts@ == profiles@,
        signal_views(c.shared_signals@) == spec_signals(profiles@),
        opt_view(c.inferred_name) == inferred(profiles@, Field::DisplayName),
        opt_view(c.inferred_location) == inferred(profiles@, Field::Location),
        views(c.emails_found@) == distinct(all_emails(profiles@)),
        views(c.phones_found@) == distinct(all_phones(profiles@)),
        views(c.all_linked_urls@) == distinct(all_links(profiles@)),
        factors_match(c.confidence, profiles@),
{
    let ghost ps = profiles@;
    let mut signals: Vec<Signal> = Vec::new();

    let names = collect_values(profiles.as_slice(), Field::DisplayName);
    if names.len() > 0 && count_in(&names, &names[0]) > 1 {
        let sig = Signal::SameName(names[0].clone());
        proof {
            lemma_signal_views_push(signals@, sig);
        }
        signals.push(sig);
    }
    assert(signal_views(signals@) =~= name_signals(ps));

    append_avatar_signals(profiles.as_slice(), &mut signals);
    append_cross_signals(profiles.as_slice(), &mut signals);

    let locs = collect_values(profiles.as_slice(), Field::Location);
    let ghost before_loc = signal_views(signals@);
    let mut inferred_location: Option<String> = None;
    match mode_index(&locs) {
        Some((i, _)) => {
            proof {
                lemma_first_mode_is_mode(views(locs@), i as int);
            }
            if locs.len() >= 2 {
                let sig = Signal::SameLocation(locs[i].clone());
                proof {
                    lemma_signal_views_push(signals@, sig);
                }
                signals.push(sig);
            }
            inferred_location = Some(locs[i].clone());
        },
        None => {},
    }
    assert(signal_views(signals@) =~= before_loc + location_signals(ps));

    append_website_signals(profiles.as_slice(), &mut signals);

    let mut email_lists: Vec<&Vec<String>> = Vec::new();
    let mut phone_lists: Vec<&Vec<String>> = Vec::new();
    let mut link_lists: Vec<&Vec<String>> = Vec::new();
    let mut i: usize = 0;
    while i < profiles.len()
        invariant
            i <= profiles@.len(),
            ps == profiles@,
            email_lists@.len() == i,
            phone_lists@.len() == i,
            link_lists@.len() == i,
            forall|k: int| 0 <= k < i ==> email_lists@[k] == &ps[k].details.emails,
            forall|k: int| 0 <= k < i ==> phone_lists@[k] == &ps[k].details.phone_numbers,
            forall|k: int| 0 <= k < i ==> link_lists@[k] == &ps[k].details.linked_urls,
        decreases profiles@.len() - i,
    {
        email_lists.push(&profiles[i].details.emails);
        phone_lists.push(&profiles[i].details.phone_numbers);
        link_lists.push(&profiles[i].details.linked_urls);
        i += 1;
    }
    let emails = distinct_flat(
        &email_lists,
        Ghost(ps.map_values(|p: ClaimedProfile| views(p.details.emails@))),
    );
    let phones = distinct_flat(
        &phone_lists,
        Ghost(ps.map_values(|p: ClaimedProfile| views(p.details.phone_numbers@))),
    );
    let links = distinct_flat(
        &link_lists,
        Ghost(ps.map_values(|p: ClaimedProfile| views(p.details.linked_urls@))),
    );

    let ghost before_email = signal_views(signals@);
    let mut k: usize = 0;
    while k < emails.len()
        invariant
            k <= emails@.len(),
            signal_views(signals@) == before_email + email_signal_list(views(emails@).take(k as int)),
        decreases emails@.len() - k,
    {
        assert(views(emails@).take(k + 1).drop_last() == views(emails@).take(k as int));
        let sig = Signal::SameEmail(emails[k].clone());
        proof {
            lemma_signal_views_push(signals@, sig);
        }
        signals.push(sig);
        k += 1;
    }
    assert(views(emails@).take(emails@.len() as int) == views(emails@));

    let inferred_name = match mode_index(&names) {
        Some((i, _)) => {
            proof {
                lemma_first_mode_is_mode(views(names@), i as int);
            }
            Some(names[i].clone())
        },
        None => None,
    };

    let confidence = confidence_factors(profiles.as_slice());

    IdentityCluster {
        accounts: profiles,
        shared_signals: signals,
        inferred_name,
        inferred_location,
        emails_found: emails,
        phones_found: phones,
        all_linked_urls: links,
        confidence,
    }
}

// ---------------------------------------------------------------------------
// Bio similarity
// ---------------------------------------------------------------------------

/// The segments of `s` between characters that are not alphanumeric, as
/// `(finished segments, segment in progress)`.
pub open spec fn split_state(s: Seq<char>) -> (Seq<Seq<char>>, Seq<char>)
    decreases s.len(),
{
    if s.len() == 0 {
        (Seq::empty(), Seq::empty())
    } else {
        let (done, cur) = split_state(s.drop_last());
        if spec_is_alphanumeric(s.last()) {
            (done, cur.push(s.last()))
        } else {
            (done.push(cur), Seq::empty())
        }
    }
}

/// The segments of `s` between characters that are not alphanumeric, empty
/// ones included (what `str::split` yields for that predicate).
pub open spec fn split_words(s: Seq<char>) -> Seq<Seq<char>> {
    split_state(s).0.push(split_state(s).1)
}

/// The words of `ws` longer than two bytes, in order.
pub open spec fn long_words(ws: Seq<Seq<char>>) -> Seq<Seq<char>>
    decreases ws.len(),
{
    if ws.len() == 0 {
        Seq::empty()
    } else {
        long_words(ws.drop_last()) + (if utf8_len(ws.last()) > 2 {
            seq![ws.last()]
        } else {
            Seq::empty()
        })
    }
}

/// The words of a text that a bio comparison looks at: the lower-cased
/// alphanumeric runs longer than two bytes.
pub open spec fn word_list(s: Seq<char>) -> Seq<Seq<char>> {
    long_words(split_words(spec_lowercase(s)))
}

/// The set of words of a text.
pub open spec fn word_set(s: Seq<char>) -> Set<Seq<char>> {
    word_list(s).to_set()
}

/// The Jaccard similarity of two texts as `(shared words, all words)`: 0
/// (as `0 / 1`) when either text is empty or neither has a word.
pub open spec fn spec_jaccard(a: Seq<char>, b: Seq<char>) -> (nat, nat) {
    if a.len() == 0 || b.len() == 0 {
        (0, 1)
    } else {
        let u = word_set(a).union(word_set(b)).len();
        if u == 0 {
            (0, 1)
        } else {
            (word_set(a).intersect(word_set(b)).len(), u)
        }
    }
}

/// How many elements of `a` occur in `b`.
pub open spec fn count_in_other(a: Seq<Seq<char>>, b: Seq<Seq<char>>) -> nat
    decreases a.len(),
{
    if a.len() == 0 {
        0
    } else {
        count_in_other(a.drop_last(), b) + (if b.contains(a.last()) { 1nat } else { 0nat })
    }
}

proof fn lemma_count_in_other(a: Seq<Seq<char>>, b: Seq<Seq<char>>)
    requires
        a.no_duplicates(),
    ensures
        count_in_other(a, b) == a.to_set().intersect(b.to_set()).len(),
    decreases a.len(),
{
    broadcast use {vstd::set::group_set_axioms, vstd::seq_lib::seq_to_set_is_finite};

    if a.len() == 0 {
        assert(a.to_set().intersect(b.to_set()) =~= Set::<Seq<char>>::empty());
    } else {
        let t = a.drop_last();
        let x = a.last();
        assert(t.no_duplicates());
        lemma_count_in_other(t, b);
        assert(a.to_set() =~= t.to_set().insert(x)) by {
            assert(a == t.push(x));
            assert forall|y: Seq<char>| a.to_set().contains(y) <==> t.to_set().insert(x).contains(y) by {
                if a.contains(y) && y != x {
                    let k = choose|k: int| 0 <= k < a.len() && a[k] == y;
                    assert(t[k] == y);
                }
                if t.contains(y) {
                    let k = choose|k: int| 0 <= k < t.len() && t[k] == y;
                    assert(a[k] == y);
                }
                assert(a[a.len() - 1] == x);
            }
        }
        assert(!t.to_set().contains(x)) by {
            if t.contains(x) {
                let k = choose|k: int| 0 <= k < t.len() && t[k] == x;
                assert(a[k] == a[a.len() - 1]);
            }
        }
        if b.contains(x) {
            assert(a.to_set().intersect(b.to_set()) =~= t.to_set().intersect(b.to_set()).insert(x));
        } else {
            assert(a.to_set().intersect(b.to_set()) =~= t.to_set().intersect(b.to_set()));
        }
    }
}

proof fn lemma_distinct_set(s: Seq<Seq<char>>)
    ensures
        distinct(s).no_duplicates(),
        distinct(s).to_set() == s.to_set(),
        distinct(s).len() == s.to_set().len(),
{
    crate::text::lemma_distinct_without(s, None);
    assert(distinct(s).to_set() =~= s.to_set());
    distinct(s).unique_seq_to_set();
}

proof fn lemma_split_state_take(s: Seq<char>, i: int)
    requires
        0 <= i < s.len(),
    ensures
        split_state(s.take(i + 1)) == (if spec_is_alphanumeric(s[i]) {
            (split_state(s.take(i)).0, split_state(s.take(i)).1.push(s[i]))
        } else {
            (split_state(s.take(i)).0.push(split_state(s.take(i)).1), Seq::<char>::empty())
        }),
{
    assert(s.take(i + 1).drop_last() == s.take(i));
}

/// The distinct words of a text, in order of first appearance.
fn words_of(s: &str) -> (r: Vec<String>)
    ensures
        views(r@) == distinct(word_list(s@)),
{
    let lower = lowercase(s);
    let cs = chars_of(lower.as_str());
    let ghost l = spec_lowercase(s@);
    let mut out: Vec<String> = Vec::new();
    let mut cur: Vec<char> = Vec::new();
    let mut i: usize = 0;
    while i < cs.len()
        invariant
            l == cs@,
            i <= cs@.len(),
            cur@ == split_state(l.take(i as int)).1,
            views(out@) == distinct(long_words(split_state(l.take(i as int)).0)),
        decreases cs@.len() - i,
    {
        proof {
            lemma_split_state_take(l, i as int);
        }
        let c = cs[i];
        if is_alphanumeric(c) {
            cur.push(c);
        } else {
            let ghost done = split_state(l.take(i as int)).0;
            assert(done.push(cur@).drop_last() == done);
            if utf8_len_exceeds(&cur, 2) {
                let w = string_of(&cur);
                push_distinct(&mut out, w, None, Ghost(long_words(done)));
                assert(long_words(done.push(cur@)) == long_words(done).push(cur@));
            } else {
                assert(long_words(done.push(cur@)) =~= long_words(done) + Seq::<Seq<char>>::empty());
            }
            cur = Vec::new();
        }
        i += 1;
    }
    assert(cs@.take(cs@.len() as int) == cs@);
    let ghost done = split_state(l).0;
    assert(done.push(cur@).drop_last() == done);
    if utf8_len_exceeds(&cur, 2) {
        let w = string_of(&cur);
        push_distinct(&mut out, w, None, Ghost(long_words(done)));
        assert(long_words(done.push(cur@)) == long_words(done).push(cur@));
    } else {
        assert(long_words(done.push(cur@)) =~= long_words(done) + Seq::<Seq<char>>::empty());
    }
    out
}

/// Whether `x` is one of `v`.
fn contains_string(v: &Vec<String>, x: &String) -> (r: bool)
    ensures
        r == views(v@).contains(x@),
{
    let mut i: usize = 0;
    while i < v.len()
        invariant
            i <= v@.len(),
            forall|k: int| 0 <= k < i ==> v@[k]@ != x@,
        decreases v@.len() - i,
    {
        if v[i] == *x {
            assert(views(v@)[i as int] == x@);
            return true;
        }
        i += 1;
    }
    assert(!views(v@).contains(x@)) by {
        if views(v@).contains(x@) {
            let k = choose|k: int| 0 <= k < views(v@).len() && views(v@)[k] == x@;
            assert(v@[k]@ == x@);
        }
    }
    false
}

/// Whether `x` is one of `v`.
pub fn contains_string_pub(v: &Vec<String>, x: &String) -> (r: bool)
    ensures
        r == views(v@).contains(x@),
{
    contains_string(v, x)
}

/// The Jaccard similarity of the word sets of two texts: the number of words
/// they share over the number of words either has (words being lower-cased
/// alphanumeric runs longer than two bytes). It is 0 when either text is
/// empty or neither has a word.
pub fn jaccard_similarity(a: &str, b: &str) -> (r: Ratio)
    ensures
        (r.num as nat, r.den as nat) == spec_jaccard(a@, b@),
        r.num <= r.den,
        0 < r.den <= 2 * (usize::MAX as u128),
{
    if a.is_empty() || b.is_empty() {
        return Ratio { num: 0, den: 1 };
    }
    let wa = words_of(a);
    let wb = words_of(b);
    let mut common: usize = 0;
    let mut i: usize = 0;
    while i < wa.len()
        invariant
            i <= wa@.len(),
            common == count_in_other(views(wa@).take(i as int), views(wb@)),
            common <= i,
        decreases wa@.len() - i,
    {
        assert(views(wa@).take(i + 1).drop_last() == views(wa@).take(i as int));
        if contains_string(&wb, &wa[i]) {
            common += 1;
        }
        i += 1;
    }
    assert(views(wa@).take(wa@.len() as int) == views(wa@));
    proof {
        broadcast use vstd::seq_lib::seq_to_set_is_finite;
        lemma_distinct_set(word_list(a@));
        lemma_distinct_set(word_list(b@));
        lemma_count_in_other(views(wa@), views(wb@));
        vstd::set_lib::lemma_set_intersect_union_lens(word_set(a@), word_set(b@));
        vstd::set_lib::lemma_len_subset(
            word_set(a@).intersect(word_set(b@)),
            word_set(a@).union(word_set(b@)),
        );
    }
    assert(common <= wa@.len());
    let union: u128 = (wa.len() as u128) - (common as u128) + (wb.len() as u128);
    if union == 0 {
        Ratio { num: 0, den: 1 }
    } else {
        Ratio { num: common as u128, den: union }
    }
}

/// A pair of accounts with similar bios: the two site names and the
/// similarity.
pub type BioMatch = (String, String, Ratio);

/// The view of a [`BioMatch`].
pub open spec fn bio_match_view(m: BioMatch) -> (Seq<char>, Seq<char>, nat, nat) {
    (m.0@, m.1@, m.2.num as nat, m.2.den as nat)
}

/// The views of a list of bio matches.
pub open spec fn bio_match_views(v: Seq<BioMatch>) -> Seq<(Seq<char>, Seq<char>, nat, nat)> {
    v.map_values(|m: BioMatch| bio_match_view(m))
}

/// `n1 / d1` is at least `n2 / d2` (for positive denominators).
pub open spec fn ratio_at_least(n1: nat, d1: nat, n2: nat, d2: nat) -> bool {
    n1 * d2 >= n2 * d1
}

/// The match of accounts `i` and `j` when both have a bio and the bios are at
/// least `t` similar.
pub open spec fn bio_pair(ps: Seq<ClaimedProfile>, i: int, j: int, t: Ratio) -> Seq<
    (Seq<char>, Seq<char>, nat, nat),
> {
    match (field_of(ps[i], Field::Bio), field_of(ps[j], Field::Bio)) {
        (Some(a), Some(b)) => {
            let (n, d) = spec_jaccard(a, b);
            if ratio_at_least(n, d, t.num as nat, t.den as nat) {
                seq![(ps[i].site_name@, ps[j].site_name@, n, d)]
            } else {
                Seq::empty()
            }
        },
        _ => Seq::empty(),
    }
}

/// The matches of account `i` with the accounts `i < j < end`.
pub open spec fn bio_row(ps: Seq<ClaimedProfile>, i: int, end: int, t: Ratio) -> Seq<
    (Seq<char>, Seq<char>, nat, nat),
>
    decreases end - i,
{
    if end <= i + 1 {
        Seq::empty()
    } else {
        bio_row(ps, i, end - 1, t) + bio_pair(ps, i, end - 1, t)
    }
}

/// The matches of the accounts before `end` with later accounts.
pub open spec fn bio_matches(ps: Seq<ClaimedProfile>, end: int, t: Ratio) -> Seq<
    (Seq<char>, Seq<char>, nat, nat),
>
    decreases end,
{
    if end <= 0 {
        Seq::empty()
    } else {
        bio_matches(ps, end - 1, t) + bio_row(ps, end - 1, ps.len() as int, t)
    }
}

proof fn lemma_expand(a0: int, a1: int, b0: int, b1: int)
    by (nonlinear_arith)
    ensures
        (a1 * 0x1_0000_0000_0000_0000 + a0) * (b1 * 0x1_0000_0000_0000_0000 + b0) == (a1 * b1)
            * 0x1_0000_0000_0000_0000_0000_0000_0000_0000 + (a0 * b1) * 0x1_0000_0000_0000_0000 + (a1
            * b0) * 0x1_0000_0000_0000_0000 + a0 * b0,
{
}

proof fn lemma_wide_identity(
    a0: int, a1: int, b0: int, b1: int, h00: int, l00: int, h01: int, l01: int, h10: int, l10: int,
    mh: int, ml: int,
)
    requires
        a0 * b0 == h00 * 0x1_0000_0000_0000_0000 + l00,
        a0 * b1 == h01 * 0x1_0000_0000_0000_0000 + l01,
        a1 * b0 == h10 * 0x1_0000_0000_0000_0000 + l10,
        h00 + l01 + l10 == mh * 0x1_0000_0000_0000_0000 + ml,
    ensures
        (a1 * 0x1_0000_0000_0000_0000 + a0) * (b1 * 0x1_0000_0000_0000_0000 + b0) == (a1 * b1 + h01
            + h10 + mh) * 0x1_0000_0000_0000_0000_0000_0000_0000_0000 + (ml * 0x1_0000_0000_0000_0000
            + l00),
{
    lemma_expand(a0, a1, b0, b1);
}

proof fn lemma_digit_product(a: int, b: int)
    by (nonlinear_arith)
    requires
        0 <= a < 0x1_0000_0000_0000_0000,
        0 <= b < 0x1_0000_0000_0000_0000,
    ensures
        0 <= a * b <= 0xffff_ffff_ffff_fffe_0000_0000_0000_0001,
{
}

proof fn lemma_high_part_bound(h: int, lo: int, a: int, b: int)
    by (nonlinear_arith)
    requires
        0 <= a < 0x1_0000_0000_0000_0000_0000_0000_0000_0000,
        0 <= b < 0x1_0000_0000_0000_0000_0000_0000_0000_0000,
        0 <= lo,
        0 <= h,
        h * 0x1_0000_0000_0000_0000_0000_0000_0000_0000 + lo == a * b,
    ensures
        h < 0x1_0000_0000_0000_0000_0000_0000_0000_0000,
{
}

/// The product of two 128-bit numbers as its high and low 128-bit halves.
fn mul_wide(a: u128, b: u128) -> (r: (u128, u128))
    ensures
        r.0 as int * 0x1_0000_0000_0000_0000_0000_0000_0000_0000 + r.1 as int == a as int * b as int,
{
    let x: u128 = 0x1_0000_0000_0000_0000;
    let a0 = a % x;
    let a1 = a / x;
    let b0 = b % x;
    let b1 = b / x;
    proof {
        lemma_digit_product(a0 as int, b0 as int);
        lemma_digit_product(a0 as int, b1 as int);
        lemma_digit_product(a1 as int, b0 as int);
        lemma_digit_product(a1 as int, b1 as int);
    }
    let p00 = a0 * b0;
    let p01 = a0 * b1;
    let p10 = a1 * b0;
    let p11 = a1 * b1;
    let mid = p00 / x + p01 % x + p10 % x;
    let lo = p00 % x + (mid % x) * x;
    let ghost h: int = p11 + p01 / x + p10 / x + mid / x;
    proof {
        lemma_wide_identity(
            a0 as int, a1 as int, b0 as int, b1 as int,
            (p00 / x) as int, (p00 % x) as int, (p01 / x) as int, (p01 % x) as int,
            (p10 / x) as int, (p10 % x) as int, (mid / x) as int, (mid % x) as int,
        );
        assert(a as int == a1 * x + a0);
        assert(b as int == b1 * x + b0);
        lemma_high_part_bound(h, lo as int, a as int, b as int);
    }
    let hi = p11 + p01 / x + p10 / x + mid / x;
    (hi, lo)
}

/// `n1 / d1` is at least `n2 / d2`, compared exactly.
fn ratio_at_least_exec(n1: u128, d1: u128, n2: u128, d2: u128) -> (r: bool)
    ensures
        r == ratio_at_least(n1 as nat, d1 as nat, n2 as nat, d2 as nat),
{
    let (h1, l1) = mul_wide(n1, d2);
    let (h2, l2) = mul_wide(n2, d1);
    h1 > h2 || (h1 == h2 && l1 >= l2)
}

/// The pairs of accounts whose bios are at least `threshold` similar (by
/// [`jaccard_similarity`]), in order of the first account and then the
/// second, each with the two site names and the similarity.
pub fn find_similar_bios(profiles: &[ClaimedProfile], threshold: Ratio) -> (r: Vec<BioMatch>)
    requires
        0 < threshold.den,
    ensures
        bio_match_views(r@) == bio_matches(profiles@, profiles@.len() as int, threshold),
{
    let ghost ps = profiles@;
    let mut similar: Vec<BioMatch> = Vec::new();
    let n = profiles.len();
    let mut i: usize = 0;
    while i < n
        invariant
            n == ps.len(),
            ps == profiles@,
            i <= n,
            0 < threshold.den,
            bio_match_views(similar@) == bio_matches(ps, i as int, threshold),
        decreases n - i,
    {
        let mut j: usize = i + 1;
        let ghost row_start = bio_match_views(similar@);
        while j < n
            invariant
                n == ps.len(),
                ps == profiles@,
                i < n,
                i + 1 <= j <= n,
                0 < threshold.den,
                bio_match_views(similar@) == row_start + bio_row(ps, i as int, j as int, threshold),
            decreases n - j,
        {
            match (&profiles[i].details.bio, &profiles[j].details.bio) {
                (Some(a), Some(b)) => {
                    let sim = jaccard_similarity(a.as_str(), b.as_str());
                    if ratio_at_least_exec(sim.num, sim.den, threshold.num, threshold.den) {
                        let m: BioMatch = (profiles[i].site_name.clone(), profiles[j].site_name.clone(), sim);
                        assert(bio_match_views(similar@.push(m)) =~= bio_match_views(similar@).push(bio_match_view(m)));
                        similar.push(m);
                    } else {
                        assert(bio_pair(ps, i as int, j as int, threshold) =~= Seq::<(Seq<char>, Seq<char>, nat, nat)>::empty());
                    }
                },
                _ => {
                    assert(bio_pair(ps, i as int, j as int, threshold) =~= Seq::<(Seq<char>, Seq<char>, nat, nat)>::empty());
                },
            }
            j += 1;
        }
        i += 1;
    }
    similar
}


// ---------------------------------------------------------------------------
// Laws
// ---------------------------------------------------------------------------

/// The mode of a non-empty list is one of its elements, occurs at least as
/// often as any element, and comes before every other element that occurs as
/// often; the mode of an empty list is empty.
pub proof fn mode_is_most_common(s: Seq<Seq<char>>)
    ensures
        s.len() == 0 ==> mode(s) == Seq::<char>::empty(),
        s.len() > 0 ==> s.contains(mode(s)),
        forall|j: int| 0 <= j < s.len() ==> count_of(s, #[trigger] s[j]) <= count_of(s, mode(s)),
        forall|j: int|
            0 <= j < s.len() && count_of(s, #[trigger] s[j]) == count_of(s, mode(s)) ==> exists|i: int|
                0 <= i <= j && s[i] == mode(s),
{
    if s.len() > 0 {
        lemma_mode_exists(s);
        let i = choose|i: int| is_first_mode(s, i);
        lemma_first_mode_is_mode(s, i);
        assert(s[i] == mode(s));
        assert forall|j: int|
            0 <= j < s.len() && count_of(s, #[trigger] s[j]) == count_of(s, mode(s)) implies exists|k: int|
                0 <= k <= j && s[k] == mode(s) by {
            if j < i {
                assert(count_of(s, s[j]) < count_of(s, s[i]));
            }
            assert(0 <= i <= j && s[i] == mode(s));
        }
    }
}

/// Jaccard similarity is symmetric, lies between 0 and 1 (its numerator is at
/// most its positive denominator), and is exactly 1 for a text compared with
/// itself when the text has a word; a text without words, or an empty one,
/// is 0 similar to anything.
pub proof fn jaccard_laws(a: Seq<char>, b: Seq<char>)
    ensures
        spec_jaccard(a, b) == spec_jaccard(b, a),
        spec_jaccard(a, b).0 <= spec_jaccard(a, b).1,
        spec_jaccard(a, b).1 > 0,
        a.len() > 0 && word_set(a).len() > 0 ==> spec_jaccard(a, a).0 == spec_jaccard(a, a).1,
        word_set(a).len() == 0 ==> spec_jaccard(a, b).0 == 0,
        a.len() == 0 ==> spec_jaccard(a, b) == (0nat, 1nat),
{
    let sa = word_set(a);
    let sb = word_set(b);
    vstd::seq_lib::seq_to_set_is_finite(word_list(a));
    vstd::seq_lib::seq_to_set_is_finite(word_list(b));
    assert(sa.union(sb) =~= sb.union(sa));
    assert(sa.intersect(sb) =~= sb.intersect(sa));
    vstd::set_lib::lemma_set_union_finite_iff(sa, sb);
    vstd::set_lib::lemma_len_subset(sa.intersect(sb), sa.union(sb));
    assert(sa.union(sa) =~= sa);
    assert(sa.intersect(sa) =~= sa);
    if sa.len() == 0 {
        vstd::set_lib::lemma_len_subset(sa.intersect(sb), sa);
    }
}


/// No signal of `s` is a shared-name signal.
pub open spec fn no_name_signal(s: Seq<SignalView>) -> bool {
    forall|i: int| 0 <= i < s.len() ==> !(#[trigger] s[i] is SameName)
}

proof fn lemma_no_name_concat(a: Seq<SignalView>, b: Seq<SignalView>)
    requires
        no_name_signal(a),
        no_name_signal(b),
    ensures
        no_name_signal(a + b),
{
    assert forall|i: int| 0 <= i < (a + b).len() implies !(#[trigger] (a + b)[i] is SameName) by {
        if i < a.len() {
            assert((a + b)[i] == a[i]);
        } else {
            assert((a + b)[i] == b[i - a.len()]);
        }
    }
}

proof fn lemma_avatar_row_no_name(ps: Seq<ClaimedProfile>, i: int, end: int)
    requires
        0 <= i < ps.len(),
        end <= ps.len(),
    ensures
        no_name_signal(avatar_row(ps, i, end)),
    decreases end - i,
{
    if end > i + 1 {
        lemma_avatar_row_no_name(ps, i, end - 1);
        lemma_no_name_concat(avatar_row(ps, i, end - 1), avatar_pair(ps, i, end - 1));
    }
}

proof fn lemma_avatar_signals_no_name(ps: Seq<ClaimedProfile>, end: int)
    requires
        end <= ps.len(),
    ensures
        no_name_signal(avatar_signals(ps, end)),
    decreases end,
{
    if end > 0 {
        lemma_avatar_signals_no_name(ps, end - 1);
        lemma_avatar_row_no_name(ps, end - 1, ps.len() as int);
        lemma_no_name_concat(avatar_signals(ps, end - 1), avatar_row(ps, end - 1, ps.len() as int));
    }
}

proof fn lemma_cross_row_no_name(ps: Seq<ClaimedProfile>, k: int, end: int)
    requires
        0 <= k < ps.len(),
        end <= ps[k].details.linked_urls@.len(),
    ensures
        no_name_signal(cross_row(ps, k, end)),
    decreases end,
{
    if end > 0 {
        lemma_cross_row_no_name(ps, k, end - 1);
        let u = ps[k].details.linked_urls@[end - 1]@;
        let tail = if links_elsewhere(ps, k, u) {
            seq![SignalView::CrossLinked { from_site: ps[k].site_name@, to_url: u }]
        } else {
            Seq::empty()
        };
        lemma_no_name_concat(cross_row(ps, k, end - 1), tail);
    }
}

proof fn lemma_cross_signals_no_name(ps: Seq<ClaimedProfile>, end: int)
    requires
        end <= ps.len(),
    ensures
        no_name_signal(cross_signals(ps, end)),
    decreases end,
{
    if end > 0 {
        lemma_cross_signals_no_name(ps, end - 1);
        let row = cross_row(ps, end - 1, ps[end - 1].details.linked_urls@.len() as int);
        lemma_cross_row_no_name(ps, end - 1, ps[end - 1].details.linked_urls@.len() as int);
        lemma_no_name_concat(cross_signals(ps, end - 1), row);
    }
}

proof fn lemma_websites_no_name(d: Seq<Seq<char>>, all: Seq<Seq<char>>)
    ensures
        no_name_signal(repeated_websites(d, all)),
    decreases d.len(),
{
    if d.len() > 0 {
        lemma_websites_no_name(d.drop_last(), all);
        let tail = if count_of(all, d.last()) > 1 {
            seq![SignalView::SameWebsite(d.last())]
        } else {
            Seq::empty()
        };
        lemma_no_name_concat(repeated_websites(d.drop_last(), all), tail);
    }
}

proof fn lemma_emails_no_name(es: Seq<Seq<char>>)
    ensures
        no_name_signal(email_signal_list(es)),
    decreases es.len(),
{
    if es.len() > 0 {
        lemma_emails_no_name(es.drop_last());
        lemma_no_name_concat(email_signal_list(es.drop_last()), seq![SignalView::SameEmail(es.last())]);
        assert(email_signal_list(es) =~= email_signal_list(es.drop_last()) + seq![SignalView::SameEmail(es.last())]);
    }
}

proof fn lemma_name_in_front(x: Seq<SignalView>, y: Seq<SignalView>, k: int)
    requires
        no_name_signal(y),
        0 <= k < (x + y).len(),
        (x + y)[k] is SameName,
    ensures
        k < x.len(),
        (x + y)[k] == x[k],
{
    if k >= x.len() {
        assert((x + y)[k] == y[k - x.len()]);
    }
}

proof fn lemma_values_step(ps: Seq<ClaimedProfile>, f: Field)
    requires
        ps.len() > 0,
    ensures
        values_of(ps, f) == values_of(ps.drop_last(), f) + match field_of(ps.last(), f) {
            Some(x) => seq![x],
            None => Seq::<Seq<char>>::empty(),
        },
{
    let m = ps.map_values(|p: ClaimedProfile| field_of(p, f));
    assert(m.drop_last() =~= ps.drop_last().map_values(|p: ClaimedProfile| field_of(p, f)));
    assert(m.last() == field_of(ps.last(), f));
}

proof fn lemma_count_of_push(a: Seq<Seq<char>>, y: Seq<char>, x: Seq<char>)
    ensures
        count_of(a + seq![y], x) == count_of(a, x) + (if y == x { 1nat } else { 0nat }),
        count_of(a + Seq::<Seq<char>>::empty(), x) == count_of(a, x),
{
    assert((a + seq![y]).drop_last() =~= a);
    assert(a + Seq::<Seq<char>>::empty() =~= a);
}

proof fn lemma_shown_by(ps: Seq<ClaimedProfile>, x: Seq<char>)
    ensures
        count_of(values_of(ps, Field::DisplayName), x) >= 1 ==> exists|i: int|
            0 <= i < ps.len() && opt_view(ps[i].details.display_name) == Some(x),
        count_of(values_of(ps, Field::DisplayName), x) >= 2 ==> exists|i: int, j: int|
            0 <= i < j < ps.len() && opt_view(ps[i].details.display_name) == Some(x) && opt_view(
                ps[j].details.display_name,
            ) == Some(x),
    decreases ps.len(),
{
    if ps.len() > 0 {
        let t = ps.drop_last();
        let l = ps.len() - 1;
        lemma_shown_by(t, x);
        lemma_values_step(ps, Field::DisplayName);
        let vt = values_of(t, Field::DisplayName);
        match field_of(ps.last(), Field::DisplayName) {
            Some(y) => lemma_count_of_push(vt, y, x),
            None => lemma_count_of_push(vt, x, x),
        }
        if count_of(vt, x) >= 1 {
            let i = choose|i: int| 0 <= i < t.len() && opt_view(t[i].details.display_name) == Some(x);
            assert(ps[i] == t[i]);
            if count_of(vt, x) >= 2 {
                let (i2, j2) = choose|i2: int, j2: int|
                    0 <= i2 < j2 < t.len() && opt_view(t[i2].details.display_name) == Some(x)
                        && opt_view(t[j2].details.display_name) == Some(x);
                assert(ps[i2] == t[i2] && ps[j2] == t[j2]);
            } else if count_of(values_of(ps, Field::DisplayName), x) >= 2 {
                assert(opt_view(ps[l].details.display_name) == Some(x));
            }
        } else if count_of(values_of(ps, Field::DisplayName), x) >= 1 {
            assert(opt_view(ps[l].details.display_name) == Some(x));
        }
    }
}

/// A shared-name signal is reported only for a display name that at least
/// two of the accounts show: a name on a single account gives none.
pub proof fn name_signal_needs_two_accounts(ps: Seq<ClaimedProfile>, k: int, n: Seq<char>)
    requires
        0 <= k < spec_signals(ps).len(),
        spec_signals(ps)[k] == SignalView::SameName(n),
    ensures
        exists|i: int, j: int|
            0 <= i < j < ps.len() && opt_view(ps[i].details.display_name) == Some(n) && opt_view(
                ps[j].details.display_name,
            ) == Some(n),
{
    let a = name_signals(ps);
    let b = avatar_signals(ps, ps.len() as int);
    let c = cross_signals(ps, ps.len() as int);
    let d = location_signals(ps);
    let w = website_signals(ps);
    let e = email_signal_list(distinct(all_emails(ps)));
    lemma_avatar_signals_no_name(ps, ps.len() as int);
    lemma_cross_signals_no_name(ps, ps.len() as int);
    assert(no_name_signal(d));
    lemma_websites_no_name(distinct(values_of(ps, Field::Website)), values_of(ps, Field::Website));
    lemma_emails_no_name(distinct(all_emails(ps)));
    lemma_name_in_front(a + b + c + d + w, e, k);
    lemma_name_in_front(a + b + c + d, w, k);
    lemma_name_in_front(a + b + c, d, k);
    lemma_name_in_front(a + b, c, k);
    lemma_name_in_front(a, b, k);
    let names = values_of(ps, Field::DisplayName);
    assert(names.len() > 0 && count_of(names, names[0]) > 1 && n == names[0]);
    lemma_shown_by(ps, n);
}

/// Linked URLs count as cross links by whether they hold the URL of one of
/// the accounts: when every linked URL holds one, all of them count; when
/// none holds any, the count is zero.
pub proof fn cross_links_count_links_to_accounts(c: ConfidenceFactors, ps: Seq<ClaimedProfile>)
    requires
        factors_match(c, ps),
    ensures
        (forall|i: int|
            0 <= i < all_links(ps).len() ==> exists|q: int|
                0 <= q < ps.len() && contains_seq(#[trigger] all_links(ps)[i], ps[q].site_url@))
            ==> c.cross_links == all_links(ps).len(),
        (forall|i: int, q: int|
            0 <= i < all_links(ps).len() && 0 <= q < ps.len() ==> !(#[trigger] contains_seq(
                all_links(ps)[i],
                ps[q].site_url@,
            ))) ==> c.cross_links == 0,
{
    lemma_count_linking_all(ps, all_links(ps));
}

proof fn lemma_count_linking_all(ps: Seq<ClaimedProfile>, us: Seq<Seq<char>>)
    ensures
        (forall|i: int|
            0 <= i < us.len() ==> exists|q: int| 0 <= q < ps.len() && contains_seq(#[trigger] us[i], ps[q].site_url@))
            ==> count_linking(ps, us) == us.len(),
        (forall|i: int, q: int|
            0 <= i < us.len() && 0 <= q < ps.len() ==> !(#[trigger] contains_seq(us[i], ps[q].site_url@)))
            ==> count_linking(ps, us) == 0,
    decreases us.len(),
{
    if us.len() > 0 {
        let t = us.drop_last();
        lemma_count_linking_all(ps, t);
        if forall|i: int|
            0 <= i < us.len() ==> exists|q: int| 0 <= q < ps.len() && contains_seq(#[trigger] us[i], ps[q].site_url@) {
            assert forall|i: int| 0 <= i < t.len() implies exists|q: int|
                0 <= q < ps.len() && contains_seq(#[trigger] t[i], ps[q].site_url@) by {
                assert(t[i] == us[i]);
            }
            assert(us[us.len() - 1] == us.last());
            assert(links_to_found(ps, us.last()));
        }
        if forall|i: int, q: int|
            0 <= i < us.len() && 0 <= q < ps.len() ==> !(#[trigger] contains_seq(us[i], ps[q].site_url@)) {
            assert forall|i: int, q: int| 0 <= i < t.len() && 0 <= q < ps.len() implies !(#[trigger] contains_seq(t[i], ps[q].site_url@)) by {
                assert(t[i] == us[i]);
            }
            assert(us[us.len() - 1] == us.last());
            assert(!links_to_found(ps, us.last()));
        }
    }
}


proof fn lemma_first_shown(ps: Seq<ClaimedProfile>, i: int, n: Seq<char>)
    requires
        0 <= i < ps.len(),
        opt_view(ps[i].details.display_name) == Some(n),
        forall|h: int| 0 <= h < i ==> (#[trigger] ps[h]).details.display_name is None,
    ensures
        values_of(ps, Field::DisplayName).len() > 0,
        values_of(ps, Field::DisplayName)[0] == n,
        count_of(values_of(ps, Field::DisplayName), n) >= 1,
    decreases ps.len(),
{
    let t = ps.drop_last();
    lemma_values_step(ps, Field::DisplayName);
    let vt = values_of(t, Field::DisplayName);
    match field_of(ps.last(), Field::DisplayName) {
        Some(y) => lemma_count_of_push(vt, y, n),
        None => lemma_count_of_push(vt, n, n),
    }
    if i < ps.len() - 1 {
        assert forall|h: int| 0 <= h < i implies (#[trigger] t[h]).details.display_name is None by {
            assert(t[h] == ps[h]);
        }
        assert(t[i] == ps[i]);
        lemma_first_shown(t, i, n);
    } else {
        lemma_none_shown(t);
    }
}

proof fn lemma_none_shown(ps: Seq<ClaimedProfile>)
    requires
        forall|h: int| 0 <= h < ps.len() ==> (#[trigger] ps[h]).details.display_name is None,
    ensures
        values_of(ps, Field::DisplayName).len() == 0,
    decreases ps.len(),
{
    if ps.len() > 0 {
        let t = ps.drop_last();
        assert forall|h: int| 0 <= h < t.len() implies (#[trigger] t[h]).details.display_name is None by {
            assert(t[h] == ps[h]);
        }
        lemma_none_shown(t);
        lemma_values_step(ps, Field::DisplayName);
        assert(ps[ps.len() - 1] == ps.last());
    }
}

proof fn lemma_shown_twice(ps: Seq<ClaimedProfile>, i: int, j: int, n: Seq<char>)
    requires
        0 <= i < j < ps.len(),
        opt_view(ps[i].details.display_name) == Some(n),
        opt_view(ps[j].details.display_name) == Some(n),
    ensures
        count_of(values_of(ps, Field::DisplayName), n) >= 2,
    decreases ps.len(),
{
    let t = ps.drop_last();
    lemma_values_step(ps, Field::DisplayName);
    let vt = values_of(t, Field::DisplayName);
    match field_of(ps.last(), Field::DisplayName) {
        Some(y) => lemma_count_of_push(vt, y, n),
        None => lemma_count_of_push(vt, n, n),
    }
    assert(t[i] == ps[i]);
    if j < ps.len() - 1 {
        assert(t[j] == ps[j]);
        lemma_shown_twice(t, i, j, n);
    } else {
        lemma_shown_once(t, i, n);
        assert(ps[ps.len() - 1] == ps.last());
    }
}

proof fn lemma_shown_once(ps: Seq<ClaimedProfile>, i: int, n: Seq<char>)
    requires
        0 <= i < ps.len(),
        opt_view(ps[i].details.display_name) == Some(n),
    ensures
        count_of(values_of(ps, Field::DisplayName), n) >= 1,
    decreases ps.len(),
{
    let t = ps.drop_last();
    lemma_values_step(ps, Field::DisplayName);
    let vt = values_of(t, Field::DisplayName);
    match field_of(ps.last(), Field::DisplayName) {
        Some(y) => lemma_count_of_push(vt, y, n),
        None => lemma_count_of_push(vt, n, n),
    }
    if i < ps.len() - 1 {
        assert(t[i] == ps[i]);
        lemma_shown_once(t, i, n);
    } else {
        assert(ps[ps.len() - 1] == ps.last());
    }
}

/// The first display name shown, when another account shows it too, is
/// reported as the first signal, a shared name.
pub proof fn shared_first_name_is_reported(ps: Seq<ClaimedProfile>, i: int, j: int, n: Seq<char>)
    requires
        0 <= i < j < ps.len(),
        forall|h: int| 0 <= h < i ==> (#[trigger] ps[h]).details.display_name is None,
        opt_view(ps[i].details.display_name) == Some(n),
        opt_view(ps[j].details.display_name) == Some(n),
    ensures
        spec_signals(ps).len() > 0,
        spec_signals(ps)[0] == SignalView::SameName(n),
{
    lemma_first_shown(ps, i, n);
    lemma_shown_twice(ps, i, j, n);
    let a = name_signals(ps);
    assert(a =~= seq![SignalView::SameName(n)]);
    let b = avatar_signals(ps, ps.len() as int);
    let c = cross_signals(ps, ps.len() as int);
    let d = location_signals(ps);
    let w = website_signals(ps);
    let e = email_signal_list(distinct(all_emails(ps)));
    assert(spec_signals(ps) == a + b + c + d + w + e);
    assert((a + b + c + d + w + e)[0] == a[0]);
}


/// The cross-link signal of an account's site and a URL it links.
pub open spec fn cross_signal(site: Seq<char>, u: Seq<char>) -> SignalView {
    SignalView::CrossLinked { from_site: site, to_url: u }
}

/// Which kind of signal `s` is, numbered in the order the kinds are reported.
pub open spec fn signal_kind(s: SignalView) -> int {
    match s {
        SignalView::SameName(_) => 0,
        SignalView::SameAvatar { .. } => 1,
        SignalView::CrossLinked { .. } => 2,
        SignalView::SameLocation(_) => 3,
        SignalView::SameWebsite(_) => 4,
        SignalView::SameEmail(_) => 5,
        SignalView::SameBio { .. } => 6,
    }
}

/// Every signal of `s` is of kind `k`.
pub open spec fn all_of_kind(s: Seq<SignalView>, k: int) -> bool {
    forall|i: int| 0 <= i < s.len() ==> signal_kind(#[trigger] s[i]) == k
}

proof fn lemma_kind_concat(a: Seq<SignalView>, b: Seq<SignalView>, k: int)
    requires
        all_of_kind(a, k),
        all_of_kind(b, k),
    ensures
        all_of_kind(a + b, k),
{
    assert forall|i: int| 0 <= i < (a + b).len() implies signal_kind(#[trigger] (a + b)[i]) == k by {
        if i < a.len() {
            assert((a + b)[i] == a[i]);
        } else {
            assert((a + b)[i] == b[i - a.len()]);
        }
    }
}

proof fn lemma_avatar_row_kind(ps: Seq<ClaimedProfile>, i: int, end: int)
    requires
        0 <= i < ps.len(),
        end <= ps.len(),
    ensures
        all_of_kind(avatar_row(ps, i, end), 1),
    decreases end - i,
{
    if end > i + 1 {
        lemma_avatar_row_kind(ps, i, end - 1);
        lemma_kind_concat(avatar_row(ps, i, end - 1), avatar_pair(ps, i, end - 1), 1);
    }
}

proof fn lemma_avatar_signals_kind(ps: Seq<ClaimedProfile>, end: int)
    requires
        end <= ps.len(),
    ensures
        all_of_kind(avatar_signals(ps, end), 1),
    decreases end,
{
    if end > 0 {
        lemma_avatar_signals_kind(ps, end - 1);
        lemma_avatar_row_kind(ps, end - 1, ps.len() as int);
        lemma_kind_concat(avatar_signals(ps, end - 1), avatar_row(ps, end - 1, ps.len() as int), 1);
    }
}

proof fn lemma_cross_row_kind(ps: Seq<ClaimedProfile>, k: int, end: int)
    requires
        0 <= k < ps.len(),
        end <= ps[k].details.linked_urls@.len(),
    ensures
        all_of_kind(cross_row(ps, k, end), 2),
    decreases end,
{
    if end > 0 {
        lemma_cross_row_kind(ps, k, end - 1);
        let u = ps[k].details.linked_urls@[end - 1]@;
        let tail = if links_elsewhere(ps, k, u) {
            seq![cross_signal(ps[k].site_name@, u)]
        } else {
            Seq::empty()
        };
        lemma_kind_concat(cross_row(ps, k, end - 1), tail, 2);
    }
}

proof fn lemma_cross_signals_kind(ps: Seq<ClaimedProfile>, end: int)
    requires
        end <= ps.len(),
    ensures
        all_of_kind(cross_signals(ps, end), 2),
    decreases end,
{
    if end > 0 {
        lemma_cross_signals_kind(ps, end - 1);
        let n = ps[end - 1].details.linked_urls@.len() as int;
        lemma_cross_row_kind(ps, end - 1, n);
        lemma_kind_concat(cross_signals(ps, end - 1), cross_row(ps, end - 1, n), 2);
    }
}

proof fn lemma_websites_kind(d: Seq<Seq<char>>, all: Seq<Seq<char>>)
    ensures
        all_of_kind(repeated_websites(d, all), 4),
    decreases d.len(),
{
    if d.len() > 0 {
        lemma_websites_kind(d.drop_last(), all);
        let tail = if count_of(all, d.last()) > 1 {
            seq![SignalView::SameWebsite(d.last())]
        } else {
            Seq::empty()
        };
        lemma_kind_concat(repeated_websites(d.drop_last(), all), tail, 4);
    }
}

proof fn lemma_emails_kind(es: Seq<Seq<char>>)
    ensures
        all_of_kind(email_signal_list(es), 5),
    decreases es.len(),
{
    if es.len() > 0 {
        lemma_emails_kind(es.drop_last());
        lemma_kind_concat(email_signal_list(es.drop_last()), seq![SignalView::SameEmail(es.last())], 5);
        assert(email_signal_list(es) =~= email_signal_list(es.drop_last()) + seq![SignalView::SameEmail(es.last())]);
    }
}

/// The signals of `ps` split by kind: the shared-avatar signals are
/// `avatar_signals` and the cross-link signals are `cross_signals`, with
/// the shared-name signals before them and the rest after.
proof fn lemma_signal_parts(ps: Seq<ClaimedProfile>, m: int)
    requires
        0 <= m < spec_signals(ps).len(),
    ensures
        signal_kind(spec_signals(ps)[m]) == 1 ==> avatar_signals(ps, ps.len() as int).contains(spec_signals(ps)[m]),
        signal_kind(spec_signals(ps)[m]) == 2 ==> cross_signals(ps, ps.len() as int).contains(spec_signals(ps)[m]),
        signal_kind(spec_signals(ps)[m]) == 3 ==> location_signals(ps).contains(spec_signals(ps)[m]),
        signal_kind(spec_signals(ps)[m]) == 4 ==> website_signals(ps).contains(spec_signals(ps)[m]),
        signal_kind(spec_signals(ps)[m]) == 5 ==> email_signal_list(distinct(all_emails(ps))).contains(spec_signals(ps)[m]),
{
    let a = name_signals(ps);
    let b = avatar_signals(ps, ps.len() as int);
    let c = cross_signals(ps, ps.len() as int);
    let d = location_signals(ps);
    let w = website_signals(ps);
    let e = email_signal_list(distinct(all_emails(ps)));
    lemma_avatar_signals_kind(ps, ps.len() as int);
    lemma_cross_signals_kind(ps, ps.len() as int);
    lemma_websites_kind(distinct(values_of(ps, Field::Website)), values_of(ps, Field::Website));
    lemma_emails_kind(distinct(all_emails(ps)));
    let all = spec_signals(ps);
    let x = all[m];
    let k = signal_kind(x);
    if 1 <= k <= 5 {
        assert(all == a + b + c + d + w + e);
        let l1 = a.len() as int;
        let l2 = l1 + b.len();
        let l3 = l2 + c.len();
        let l4 = l3 + d.len();
        let l5 = l4 + w.len();
        if m < l1 {
            assert(x == a[m]);
        } else if m < l2 {
            assert(x == b[m - l1]);
        } else if m < l3 {
            assert(x == c[m - l2]);
        } else if m < l4 {
            assert(x == d[m - l3]);
        } else if m < l5 {
            assert(x == w[m - l4]);
        } else {
            assert(x == e[m - l5]);
        }
    }
}

proof fn lemma_contains_in_signals(ps: Seq<ClaimedProfile>, x: SignalView)
    requires
        avatar_signals(ps, ps.len() as int).contains(x) || cross_signals(ps, ps.len() as int).contains(x)
            || location_signals(ps).contains(x) || website_signals(ps).contains(x) || email_signal_list(
            distinct(all_emails(ps)),
        ).contains(x),
    ensures
        spec_signals(ps).contains(x),
{
    let a = name_signals(ps);
    let b = avatar_signals(ps, ps.len() as int);
    let c = cross_signals(ps, ps.len() as int);
    let d = location_signals(ps);
    let w = website_signals(ps);
    let e = email_signal_list(distinct(all_emails(ps)));
    let all = a + b + c + d + w + e;
    assert(spec_signals(ps) == all);
    if b.contains(x) {
        let i = choose|i: int| 0 <= i < b.len() && b[i] == x;
        assert(all[a.len() + i] == x);
    } else if c.contains(x) {
        let i = choose|i: int| 0 <= i < c.len() && c[i] == x;
        assert(all[a.len() + b.len() + i] == x);
    } else if d.contains(x) {
        let i = choose|i: int| 0 <= i < d.len() && d[i] == x;
        assert(all[a.len() + b.len() + c.len() + i] == x);
    } else if w.contains(x) {
        let i = choose|i: int| 0 <= i < w.len() && w[i] == x;
        assert(all[a.len() + b.len() + c.len() + d.len() + i] == x);
    } else {
        let i = choose|i: int| 0 <= i < e.len() && e[i] == x;
        assert(all[a.len() + b.len() + c.len() + d.len() + w.len() + i] == x);
    }
}

proof fn lemma_cross_row_sound(ps: Seq<ClaimedProfile>, k: int, end: int, x: SignalView)
    requires
        0 <= k < ps.len(),
        end <= ps[k].details.linked_urls@.len(),
        cross_row(ps, k, end).contains(x),
    ensures
        exists|j: int|
            0 <= j < end && x == cross_signal(ps[k].site_name@, ps[k].details.linked_urls@[j]@) && links_elsewhere(ps, k, ps[k].details.linked_urls@[j]@),
    decreases end,
{
    let prev = cross_row(ps, k, end - 1);
    let r = cross_row(ps, k, end);
    let i = choose|i: int| 0 <= i < r.len() && r[i] == x;
    if i < prev.len() {
        assert(r[i] == prev[i]);
        lemma_cross_row_sound(ps, k, end - 1, x);
    }
}

proof fn lemma_cross_signals_sound(ps: Seq<ClaimedProfile>, end: int, x: SignalView)
    requires
        end <= ps.len(),
        cross_signals(ps, end).contains(x),
    ensures
        exists|k: int, j: int|
            0 <= k < end && 0 <= j < ps[k].details.linked_urls@.len() && x == cross_signal(ps[k].site_name@, ps[k].details.linked_urls@[j]@) && links_elsewhere(ps, k, ps[k].details.linked_urls@[j]@),
    decreases end,
{
    let prev = cross_signals(ps, end - 1);
    let n = ps[end - 1].details.linked_urls@.len() as int;
    let row = cross_row(ps, end - 1, n);
    let r = cross_signals(ps, end);
    let i = choose|i: int| 0 <= i < r.len() && r[i] == x;
    if i < prev.len() {
        assert(r[i] == prev[i]);
        lemma_cross_signals_sound(ps, end - 1, x);
    } else {
        assert(r[i] == row[i - prev.len()]);
        lemma_cross_row_sound(ps, end - 1, n, x);
    }
}

proof fn lemma_cross_row_complete(ps: Seq<ClaimedProfile>, k: int, end: int, j: int)
    requires
        0 <= k < ps.len(),
        0 <= j < end <= ps[k].details.linked_urls@.len(),
        links_elsewhere(ps, k, ps[k].details.linked_urls@[j]@),
    ensures
        cross_row(ps, k, end).contains(
            cross_signal(ps[k].site_name@, ps[k].details.linked_urls@[j]@),
        ),
    decreases end,
{
    let x = cross_signal(ps[k].site_name@, ps[k].details.linked_urls@[j]@);
    let prev = cross_row(ps, k, end - 1);
    let r = cross_row(ps, k, end);
    if j == end - 1 {
        assert(r[prev.len() as int] == x);
    } else {
        lemma_cross_row_complete(ps, k, end - 1, j);
        let i = choose|i: int| 0 <= i < prev.len() && prev[i] == x;
        assert(r[i] == x);
    }
}

proof fn lemma_cross_signals_complete(ps: Seq<ClaimedProfile>, end: int, k: int, x: SignalView)
    requires
        0 <= k < end <= ps.len(),
        cross_row(ps, k, ps[k].details.linked_urls@.len() as int).contains(x),
    ensures
        cross_signals(ps, end).contains(x),
    decreases end,
{
    let prev = cross_signals(ps, end - 1);
    let r = cross_signals(ps, end);
    if k == end - 1 {
        let row = cross_row(ps, k, ps[k].details.linked_urls@.len() as int);
        let i = choose|i: int| 0 <= i < row.len() && row[i] == x;
        assert(r[prev.len() + i] == x);
    } else {
        lemma_cross_signals_complete(ps, end - 1, k, x);
        let i = choose|i: int| 0 <= i < prev.len() && prev[i] == x;
        assert(r[i] == x);
    }
}

/// The cross-link signals are exactly the links to other sites' accounts:
/// each names an account's site and one of its linked URLs that holds the
/// URL of an account on another site, and each such link, whatever the
/// places of the two accounts in the list, is reported.
pub proof fn cross_link_signals_law(ps: Seq<ClaimedProfile>)
    ensures
        forall|m: int|
            0 <= m < spec_signals(ps).len() && (#[trigger] spec_signals(ps)[m]) is CrossLinked ==> exists|k: int, j: int, t: int|
                0 <= k < ps.len() && 0 <= j < ps[k].details.linked_urls@.len() && 0 <= t < ps.len()
                    && spec_signals(ps)[m] == cross_signal(ps[k].site_name@, ps[k].details.linked_urls@[j]@) && ps[t].site_name@ != ps[k].site_name@ && contains_seq(
                    ps[k].details.linked_urls@[j]@,
                    ps[t].site_url@,
                ),
        forall|k: int, j: int, t: int|
            0 <= k < ps.len() && 0 <= j < ps[k].details.linked_urls@.len() && 0 <= t < ps.len()
                && ps[t].site_name@ != ps[k].site_name@ && #[trigger] contains_seq(
                ps[k].details.linked_urls@[j]@,
                ps[t].site_url@,
            ) ==> spec_signals(ps).contains(
                cross_signal(ps[k].site_name@, ps[k].details.linked_urls@[j]@),
            ),
{
    assert forall|m: int|
        0 <= m < spec_signals(ps).len() && (#[trigger] spec_signals(ps)[m]) is CrossLinked implies exists|k: int, j: int, t: int|
            0 <= k < ps.len() && 0 <= j < ps[k].details.linked_urls@.len() && 0 <= t < ps.len()
                && spec_signals(ps)[m] == cross_signal(ps[k].site_name@, ps[k].details.linked_urls@[j]@) && ps[t].site_name@ != ps[k].site_name@ && contains_seq(
                ps[k].details.linked_urls@[j]@,
                ps[t].site_url@,
            ) by {
        lemma_signal_parts(ps, m);
        lemma_cross_signals_sound(ps, ps.len() as int, spec_signals(ps)[m]);
    }
    assert forall|k: int, j: int, t: int|
        0 <= k < ps.len() && 0 <= j < ps[k].details.linked_urls@.len() && 0 <= t < ps.len()
            && ps[t].site_name@ != ps[k].site_name@ && #[trigger] contains_seq(
            ps[k].details.linked_urls@[j]@,
            ps[t].site_url@,
        ) implies spec_signals(ps).contains(
            cross_signal(ps[k].site_name@, ps[k].details.linked_urls@[j]@),
        ) by {
        let x = cross_signal(ps[k].site_name@, ps[k].details.linked_urls@[j]@);
        assert(links_elsewhere(ps, k, ps[k].details.linked_urls@[j]@));
        lemma_cross_row_complete(ps, k, ps[k].details.linked_urls@.len() as int, j);
        lemma_cross_signals_complete(ps, ps.len() as int, k, x);
        lemma_contains_in_signals(ps, x);
    }
}


/// The shared-avatar signal of two sites whose hashes differ in `d` bits.
pub open spec fn avatar_signal(a: Seq<char>, b: Seq<char>, d: nat) -> SignalView {
    SignalView::SameAvatar { site_a: a, site_b: b, hash_distance: d }
}

/// Accounts `i` and `j` both have avatar hashes, which differ in fewer than
/// 10 bits, and `x` is the shared-avatar signal of their sites and that
/// distance.
pub open spec fn close_avatars(ps: Seq<ClaimedProfile>, i: int, j: int, x: SignalView) -> bool {
    &&& ps[i].avatar_phash is Some
    &&& ps[j].avatar_phash is Some
    &&& hamming(ps[i].avatar_phash->0, ps[j].avatar_phash->0) < 10
    &&& x == avatar_signal(
        ps[i].site_name@,
        ps[j].site_name@,
        hamming(ps[i].avatar_phash->0, ps[j].avatar_phash->0),
    )
}

proof fn lemma_avatar_row_sound(ps: Seq<ClaimedProfile>, i: int, end: int, x: SignalView)
    requires
        0 <= i < ps.len(),
        end <= ps.len(),
        avatar_row(ps, i, end).contains(x),
    ensures
        exists|j: int| i < j < end && close_avatars(ps, i, j, x),
    decreases end - i,
{
    let prev = avatar_row(ps, i, end - 1);
    let pair = avatar_pair(ps, i, end - 1);
    let r = avatar_row(ps, i, end);
    let k = choose|k: int| 0 <= k < r.len() && r[k] == x;
    if k < prev.len() {
        assert(r[k] == prev[k]);
        lemma_avatar_row_sound(ps, i, end - 1, x);
    } else {
        assert(r[k] == pair[k - prev.len()]);
        assert(close_avatars(ps, i, end - 1, x));
    }
}

proof fn lemma_avatar_signals_sound(ps: Seq<ClaimedProfile>, end: int, x: SignalView)
    requires
        end <= ps.len(),
        avatar_signals(ps, end).contains(x),
    ensures
        exists|i: int, j: int| 0 <= i < end && i < j < ps.len() && close_avatars(ps, i, j, x),
    decreases end,
{
    let prev = avatar_signals(ps, end - 1);
    let row = avatar_row(ps, end - 1, ps.len() as int);
    let r = avatar_signals(ps, end);
    let k = choose|k: int| 0 <= k < r.len() && r[k] == x;
    if k < prev.len() {
        assert(r[k] == prev[k]);
        lemma_avatar_signals_sound(ps, end - 1, x);
    } else {
        assert(r[k] == row[k - prev.len()]);
        lemma_avatar_row_sound(ps, end - 1, ps.len() as int, x);
    }
}

proof fn lemma_avatar_row_complete(ps: Seq<ClaimedProfile>, i: int, end: int, j: int, x: SignalView)
    requires
        0 <= i < j < end <= ps.len(),
        close_avatars(ps, i, j, x),
    ensures
        avatar_row(ps, i, end).contains(x),
    decreases end - i,
{
    let prev = avatar_row(ps, i, end - 1);
    let r = avatar_row(ps, i, end);
    if j == end - 1 {
        assert(avatar_pair(ps, i, j) =~= seq![x]);
        assert(r[prev.len() as int] == x);
    } else {
        lemma_avatar_row_complete(ps, i, end - 1, j, x);
        let k = choose|k: int| 0 <= k < prev.len() && prev[k] == x;
        assert(r[k] == x);
    }
}

proof fn lemma_avatar_signals_complete(ps: Seq<ClaimedProfile>, end: int, i: int, x: SignalView)
    requires
        0 <= i < end <= ps.len(),
        avatar_row(ps, i, ps.len() as int).contains(x),
    ensures
        avatar_signals(ps, end).contains(x),
    decreases end,
{
    let prev = avatar_signals(ps, end - 1);
    let r = avatar_signals(ps, end);
    if i == end - 1 {
        let row = avatar_row(ps, i, ps.len() as int);
        let k = choose|k: int| 0 <= k < row.len() && row[k] == x;
        assert(r[prev.len() + k] == x);
    } else {
        lemma_avatar_signals_complete(ps, end - 1, i, x);
        let k = choose|k: int| 0 <= k < prev.len() && prev[k] == x;
        assert(r[k] == x);
    }
}

/// The shared-avatar signals are exactly the close pairs: each names the
/// sites of two accounts, the first listed before the second, whose avatar
/// hashes differ in fewer than 10 bits, with that distance; and every such
/// pair is reported.
pub proof fn avatar_signals_law(ps: Seq<ClaimedProfile>)
    ensures
        forall|m: int|
            0 <= m < spec_signals(ps).len() && (#[trigger] spec_signals(ps)[m]) is SameAvatar ==> exists|i: int, j: int|
                0 <= i < j < ps.len() && close_avatars(ps, i, j, spec_signals(ps)[m]),
        forall|i: int, j: int, x: SignalView|
            0 <= i < j < ps.len() && #[trigger] close_avatars(ps, i, j, x) ==> spec_signals(ps).contains(x),
{
    assert forall|m: int|
        0 <= m < spec_signals(ps).len() && (#[trigger] spec_signals(ps)[m]) is SameAvatar implies exists|i: int, j: int|
            0 <= i < j < ps.len() && close_avatars(ps, i, j, spec_signals(ps)[m]) by {
        lemma_signal_parts(ps, m);
        lemma_avatar_signals_sound(ps, ps.len() as int, spec_signals(ps)[m]);
    }
    assert forall|i: int, j: int, x: SignalView|
        0 <= i < j < ps.len() && #[trigger] close_avatars(ps, i, j, x) implies spec_signals(ps).contains(x) by {
        lemma_avatar_row_complete(ps, i, ps.len() as int, j, x);
        lemma_avatar_signals_complete(ps, ps.len() as int, i, x);
        lemma_contains_in_signals(ps, x);
    }
}


proof fn lemma_field_count(ps: Seq<ClaimedProfile>, f: Field, x: Seq<char>)
    ensures
        count_of(values_of(ps, f), x) >= 1 <==> exists|i: int| 0 <= i < ps.len() && field_of(#[trigger] ps[i], f) == Some(x),
        count_of(values_of(ps, f), x) >= 2 <==> exists|i: int, j: int|
            0 <= i < j < ps.len() && field_of(#[trigger] ps[i], f) == Some(x) && field_of(#[trigger] ps[j], f) == Some(x),
    decreases ps.len(),
{
    if ps.len() == 0 {
        assert(values_of(ps, f) =~= Seq::<Seq<char>>::empty());
    } else {
        let t = ps.drop_last();
        let l = ps.len() - 1;
        lemma_field_count(t, f, x);
        lemma_values_step(ps, f);
        let vt = values_of(t, f);
        match field_of(ps.last(), f) {
            Some(y) => lemma_count_of_push(vt, y, x),
            None => lemma_count_of_push(vt, x, x),
        }
        assert(ps[l] == ps.last());
        let last_shows = field_of(ps[l], f) == Some(x);
        if exists|i: int| 0 <= i < ps.len() && field_of(#[trigger] ps[i], f) == Some(x) {
            let i = choose|i: int| 0 <= i < ps.len() && field_of(#[trigger] ps[i], f) == Some(x);
            if i < l {
                assert(t[i] == ps[i]);
            }
        }
        if exists|i: int| 0 <= i < t.len() && field_of(#[trigger] t[i], f) == Some(x) {
            let i = choose|i: int| 0 <= i < t.len() && field_of(#[trigger] t[i], f) == Some(x);
            assert(t[i] == ps[i]);
            if last_shows {
                assert(0 <= i < l && field_of(ps[i], f) == Some(x) && field_of(ps[l], f) == Some(x));
            }
        }
        if exists|i: int, j: int|
            0 <= i < j < ps.len() && field_of(#[trigger] ps[i], f) == Some(x) && field_of(#[trigger] ps[j], f) == Some(x) {
            let (i, j) = choose|i: int, j: int|
                0 <= i < j < ps.len() && field_of(#[trigger] ps[i], f) == Some(x) && field_of(#[trigger] ps[j], f) == Some(x);
            assert(t[i] == ps[i]);
            if j < l {
                assert(t[j] == ps[j]);
            }
        }
        if exists|i: int, j: int|
            0 <= i < j < t.len() && field_of(#[trigger] t[i], f) == Some(x) && field_of(#[trigger] t[j], f) == Some(x) {
            let (i, j) = choose|i: int, j: int|
                0 <= i < j < t.len() && field_of(#[trigger] t[i], f) == Some(x) && field_of(#[trigger] t[j], f) == Some(x);
            assert(t[i] == ps[i] && t[j] == ps[j]);
        }
    }
}

proof fn lemma_count_contains(s: Seq<Seq<char>>, x: Seq<char>)
    ensures
        count_of(s, x) >= 1 <==> s.contains(x),
    decreases s.len(),
{
    if s.len() > 0 {
        let t = s.drop_last();
        lemma_count_contains(t, x);
        if s.contains(x) {
            let i = choose|i: int| 0 <= i < s.len() && s[i] == x;
            if i < s.len() - 1 {
                assert(t[i] == x);
            }
        }
        if t.contains(x) {
            let i = choose|i: int| 0 <= i < t.len() && t[i] == x;
            assert(s[i] == x);
        }
    }
}

proof fn lemma_repeated_websites(d: Seq<Seq<char>>, all: Seq<Seq<char>>, x: Seq<char>)
    ensures
        repeated_websites(d, all).contains(SignalView::SameWebsite(x)) <==> (d.contains(x) && count_of(all, x) > 1),
    decreases d.len(),
{
    if d.len() > 0 {
        let t = d.drop_last();
        lemma_repeated_websites(t, all, x);
        let prev = repeated_websites(t, all);
        let r = repeated_websites(d, all);
        let y = SignalView::SameWebsite(x);
        if r.contains(y) {
            let i = choose|i: int| 0 <= i < r.len() && r[i] == y;
            if i < prev.len() {
                assert(r[i] == prev[i]);
                let k = choose|k: int| 0 <= k < t.len() && t[k] == x;
                assert(d[k] == x);
            } else {
                assert(d[d.len() - 1] == x);
            }
        }
        if d.contains(x) && count_of(all, x) > 1 {
            let k = choose|k: int| 0 <= k < d.len() && d[k] == x;
            if k < d.len() - 1 {
                assert(t[k] == x);
                let i = choose|i: int| 0 <= i < prev.len() && prev[i] == y;
                assert(r[i] == y);
            } else {
                assert(r[prev.len() as int] == y);
            }
        }
    }
}

/// A shared-website signal is reported for a website exactly when at least
/// two of the accounts show it.
pub proof fn website_signals_law(ps: Seq<ClaimedProfile>, w: Seq<char>)
    ensures
        spec_signals(ps).contains(SignalView::SameWebsite(w)) <==> exists|i: int, j: int|
            0 <= i < j < ps.len() && opt_view((#[trigger] ps[i]).details.website) == Some(w) && opt_view(
                (#[trigger] ps[j]).details.website,
            ) == Some(w),
{
    let webs = values_of(ps, Field::Website);
    let x = SignalView::SameWebsite(w);
    lemma_field_count(ps, Field::Website, w);
    lemma_count_contains(webs, w);
    crate::text::lemma_distinct_without(webs, None);
    lemma_repeated_websites(distinct(webs), webs, w);
    if spec_signals(ps).contains(x) {
        let m = choose|m: int| 0 <= m < spec_signals(ps).len() && spec_signals(ps)[m] == x;
        lemma_signal_parts(ps, m);
    }
    if website_signals(ps).contains(x) {
        lemma_contains_in_signals(ps, x);
    }
}

proof fn lemma_flatten_contains(s: Seq<Seq<Seq<char>>>, x: Seq<char>)
    ensures
        flatten(s).contains(x) <==> exists|k: int, j: int| 0 <= k < s.len() && 0 <= j < s[k].len() && s[k][j] == x,
    decreases s.len(),
{
    if s.len() > 0 {
        let t = s.drop_last();
        lemma_flatten_contains(t, x);
        let ft = flatten(t);
        let fs = flatten(s);
        assert(fs == ft + s.last());
        if fs.contains(x) {
            let i = choose|i: int| 0 <= i < fs.len() && fs[i] == x;
            if i < ft.len() {
                assert(ft[i] == x);
                let (k, j) = choose|k: int, j: int| 0 <= k < t.len() && 0 <= j < t[k].len() && t[k][j] == x;
                assert(s[k] == t[k]);
            } else {
                assert(s[s.len() - 1][i - ft.len()] == x);
            }
        }
        if exists|k: int, j: int| 0 <= k < s.len() && 0 <= j < s[k].len() && s[k][j] == x {
            let (k, j) = choose|k: int, j: int| 0 <= k < s.len() && 0 <= j < s[k].len() && s[k][j] == x;
            if k < s.len() - 1 {
                assert(t[k] == s[k]);
                let i = choose|i: int| 0 <= i < ft.len() && ft[i] == x;
                assert(fs[i] == x);
            } else {
                assert(fs[ft.len() + j] == x);
            }
        }
    }
}

proof fn lemma_email_list(es: Seq<Seq<char>>, x: Seq<char>)
    ensures
        email_signal_list(es).contains(SignalView::SameEmail(x)) <==> es.contains(x),
        email_signal_list(es).len() == es.len(),
    decreases es.len(),
{
    if es.len() > 0 {
        let t = es.drop_last();
        lemma_email_list(t, x);
        let prev = email_signal_list(t);
        let r = email_signal_list(es);
        let y = SignalView::SameEmail(x);
        if r.contains(y) {
            let i = choose|i: int| 0 <= i < r.len() && r[i] == y;
            if i < prev.len() {
                assert(r[i] == prev[i]);
                let k = choose|k: int| 0 <= k < t.len() && t[k] == x;
                assert(es[k] == x);
            } else {
                assert(es[es.len() - 1] == x);
            }
        }
        if es.contains(x) {
            let k = choose|k: int| 0 <= k < es.len() && es[k] == x;
            if k < es.len() - 1 {
                assert(t[k] == x);
                let i = choose|i: int| 0 <= i < prev.len() && prev[i] == y;
                assert(r[i] == y);
            } else {
                assert(r[prev.len() as int] == y);
            }
        }
    }
}

/// An e-mail signal is reported for an address exactly when one of the
/// accounts shows it.
pub proof fn email_signals_law(ps: Seq<ClaimedProfile>, e: Seq<char>)
    ensures
        spec_signals(ps).contains(SignalView::SameEmail(e)) <==> exists|k: int, j: int|
            0 <= k < ps.len() && 0 <= j < ps[k].details.emails@.len() && (#[trigger] ps[k].details.emails@[j])@ == e,
{
    let m = ps.map_values(|p: ClaimedProfile| views(p.details.emails@));
    let all = all_emails(ps);
    let x = SignalView::SameEmail(e);
    lemma_flatten_contains(m, e);
    crate::text::lemma_distinct_without(all, None);
    lemma_email_list(distinct(all), e);
    if exists|k: int, j: int|
        0 <= k < ps.len() && 0 <= j < ps[k].details.emails@.len() && (#[trigger] ps[k].details.emails@[j])@ == e {
        let (k, j) = choose|k: int, j: int|
            0 <= k < ps.len() && 0 <= j < ps[k].details.emails@.len() && (#[trigger] ps[k].details.emails@[j])@ == e;
        assert(m[k][j] == e);
    }
    if all.contains(e) {
        let (k, j) = choose|k: int, j: int| 0 <= k < m.len() && 0 <= j < m[k].len() && m[k][j] == e;
        assert(ps[k].details.emails@[j]@ == e);
    }
    if spec_signals(ps).contains(x) {
        let i = choose|i: int| 0 <= i < spec_signals(ps).len() && spec_signals(ps)[i] == x;
        lemma_signal_parts(ps, i);
    }
    if email_signal_list(distinct(all)).contains(x) {
        lemma_contains_in_signals(ps, x);
    }
}

/// A shared-location signal is reported when, and only when, at least two
/// accounts show a location; it names a location that one of them shows and
/// that is shown at least as often as any other.
pub proof fn location_signal_law(ps: Seq<ClaimedProfile>, l: Seq<char>)
    ensures
        spec_signals(ps).contains(SignalView::SameLocation(l)) ==> {
            &&& exists|i: int| 0 <= i < ps.len() && opt_view((#[trigger] ps[i]).details.location) == Some(l)
            &&& forall|k: int|
                0 <= k < ps.len() && (#[trigger] ps[k]).details.location is Some ==> count_of(
                    values_of(ps, Field::Location),
                    ps[k].details.location->0@,
                ) <= count_of(values_of(ps, Field::Location), l)
        },
        (exists|i: int, j: int|
            0 <= i < j < ps.len() && (#[trigger] ps[i]).details.location is Some && (#[trigger] ps[j]).details.location is Some)
            ==> exists|m: int| 0 <= m < spec_signals(ps).len() && spec_signals(ps)[m] is SameLocation,
{
    let locs = values_of(ps, Field::Location);
    let x = SignalView::SameLocation(l);
    mode_is_most_common(locs);
    if spec_signals(ps).contains(x) {
        let m = choose|m: int| 0 <= m < spec_signals(ps).len() && spec_signals(ps)[m] == x;
        lemma_signal_parts(ps, m);
        assert(locs.len() >= 2 && l == mode(locs));
        let i0 = choose|i0: int| 0 <= i0 < locs.len() && locs[i0] == l;
        lemma_count_contains(locs, l);
        lemma_field_count(ps, Field::Location, l);
        assert forall|k: int|
            0 <= k < ps.len() && (#[trigger] ps[k]).details.location is Some implies count_of(
                locs,
                ps[k].details.location->0@,
            ) <= count_of(locs, l) by {
            let y = ps[k].details.location->0@;
            lemma_field_count(ps, Field::Location, y);
            assert(field_of(ps[k], Field::Location) == Some(y));
            lemma_count_contains(locs, y);
            let j = choose|j: int| 0 <= j < locs.len() && locs[j] == y;
            assert(count_of(locs, locs[j]) <= count_of(locs, mode(locs)));
        }
    }
    if exists|i: int, j: int|
        0 <= i < j < ps.len() && (#[trigger] ps[i]).details.location is Some && (#[trigger] ps[j]).details.location is Some {
        let (i, j) = choose|i: int, j: int|
            0 <= i < j < ps.len() && (#[trigger] ps[i]).details.location is Some && (#[trigger] ps[j]).details.location is Some;
        lemma_locations_len(ps, i, j);
        let y = SignalView::SameLocation(mode(locs));
        assert(location_signals(ps)[0] == y);
        lemma_contains_in_signals(ps, y);
    }
}

proof fn lemma_locations_len(ps: Seq<ClaimedProfile>, i: int, j: int)
    requires
        0 <= i < j < ps.len(),
        ps[i].details.location is Some,
        ps[j].details.location is Some,
    ensures
        values_of(ps, Field::Location).len() >= 2,
    decreases ps.len(),
{
    let t = ps.drop_last();
    lemma_values_step(ps, Field::Location);
    assert(t[i] == ps[i]);
    if j < ps.len() - 1 {
        assert(t[j] == ps[j]);
        lemma_locations_len(t, i, j);
    } else {
        assert(ps[ps.len() - 1] == ps.last());
        lemma_location_len_one(t, i);
    }
}

proof fn lemma_location_len_one(ps: Seq<ClaimedProfile>, i: int)
    requires
        0 <= i < ps.len(),
        ps[i].details.location is Some,
    ensures
        values_of(ps, Field::Location).len() >= 1,
    decreases ps.len(),
{
    let t = ps.drop_last();
    lemma_values_step(ps, Field::Location);
    if i < ps.len() - 1 {
        assert(t[i] == ps[i]);
        lemma_location_len_one(t, i);
    } else {
        assert(ps[ps.len() - 1] == ps.last());
    }
}


/// Accounts `i` and `j` both show a bio, the Jaccard similarity `n / d` of
/// the two bios is at least `t` (`n * t.den >= t.num * d`), and `x` is the
/// match of their sites with that similarity.
pub open spec fn similar_bios(ps: Seq<ClaimedProfile>, i: int, j: int, t: Ratio, x: (Seq<char>, Seq<char>, nat, nat)) -> bool {
    &&& ps[i].details.bio is Some
    &&& ps[j].details.bio is Some
    &&& x.0 == ps[i].site_name@
    &&& x.1 == ps[j].site_name@
    &&& (x.2, x.3) == spec_jaccard(ps[i].details.bio->0@, ps[j].details.bio->0@)
    &&& x.2 * (t.den as nat) >= (t.num as nat) * x.3
}

proof fn lemma_bio_row_sound(ps: Seq<ClaimedProfile>, i: int, end: int, t: Ratio, x: (Seq<char>, Seq<char>, nat, nat))
    requires
        0 <= i < ps.len(),
        end <= ps.len(),
        bio_row(ps, i, end, t).contains(x),
    ensures
        exists|j: int| i < j < end && similar_bios(ps, i, j, t, x),
    decreases end - i,
{
    let prev = bio_row(ps, i, end - 1, t);
    let pair = bio_pair(ps, i, end - 1, t);
    let r = bio_row(ps, i, end, t);
    let k = choose|k: int| 0 <= k < r.len() && r[k] == x;
    if k < prev.len() {
        assert(r[k] == prev[k]);
        lemma_bio_row_sound(ps, i, end - 1, t, x);
    } else {
        assert(r[k] == pair[k - prev.len()]);
        assert(similar_bios(ps, i, end - 1, t, x));
    }
}

proof fn lemma_bio_matches_sound(ps: Seq<ClaimedProfile>, end: int, t: Ratio, x: (Seq<char>, Seq<char>, nat, nat))
    requires
        end <= ps.len(),
        bio_matches(ps, end, t).contains(x),
    ensures
        exists|i: int, j: int| 0 <= i < end && i < j < ps.len() && similar_bios(ps, i, j, t, x),
    decreases end,
{
    let prev = bio_matches(ps, end - 1, t);
    let row = bio_row(ps, end - 1, ps.len() as int, t);
    let r = bio_matches(ps, end, t);
    let k = choose|k: int| 0 <= k < r.len() && r[k] == x;
    if k < prev.len() {
        assert(r[k] == prev[k]);
        lemma_bio_matches_sound(ps, end - 1, t, x);
    } else {
        assert(r[k] == row[k - prev.len()]);
        lemma_bio_row_sound(ps, end - 1, ps.len() as int, t, x);
    }
}

proof fn lemma_bio_row_complete(ps: Seq<ClaimedProfile>, i: int, end: int, j: int, t: Ratio, x: (Seq<char>, Seq<char>, nat, nat))
    requires
        0 <= i < j < end <= ps.len(),
        similar_bios(ps, i, j, t, x),
    ensures
        bio_row(ps, i, end, t).contains(x),
    decreases end - i,
{
    let prev = bio_row(ps, i, end - 1, t);
    let r = bio_row(ps, i, end, t);
    if j == end - 1 {
        assert(bio_pair(ps, i, j, t) =~= seq![x]);
        assert(r[prev.len() as int] == x);
    } else {
        lemma_bio_row_complete(ps, i, end - 1, j, t, x);
        let k = choose|k: int| 0 <= k < prev.len() && prev[k] == x;
        assert(r[k] == x);
    }
}

proof fn lemma_bio_matches_complete(ps: Seq<ClaimedProfile>, end: int, i: int, t: Ratio, x: (Seq<char>, Seq<char>, nat, nat))
    requires
        0 <= i < end <= ps.len(),
        bio_row(ps, i, ps.len() as int, t).contains(x),
    ensures
        bio_matches(ps, end, t).contains(x),
    decreases end,
{
    let prev = bio_matches(ps, end - 1, t);
    let r = bio_matches(ps, end, t);
    if i == end - 1 {
        let row = bio_row(ps, i, ps.len() as int, t);
        let k = choose|k: int| 0 <= k < row.len() && row[k] == x;
        assert(r[prev.len() + k] == x);
    } else {
        lemma_bio_matches_complete(ps, end - 1, i, t, x);
        let k = choose|k: int| 0 <= k < prev.len() && prev[k] == x;
        assert(r[k] == x);
    }
}

/// The similar-bio matches are exactly the pairs of accounts, the first
/// listed before the second, that both show a bio and whose bios are at
/// least as similar as the threshold, each with the two site names and the
/// similarity.
pub proof fn similar_bios_law(ps: Seq<ClaimedProfile>, t: Ratio)
    ensures
        forall|x: (Seq<char>, Seq<char>, nat, nat)|
            #[trigger] bio_matches(ps, ps.len() as int, t).contains(x) <==> exists|i: int, j: int|
                0 <= i < j < ps.len() && similar_bios(ps, i, j, t, x),
{
    assert forall|x: (Seq<char>, Seq<char>, nat, nat)|
        #[trigger] bio_matches(ps, ps.len() as int, t).contains(x) <==> exists|i: int, j: int|
            0 <= i < j < ps.len() && similar_bios(ps, i, j, t, x) by {
        if bio_matches(ps, ps.len() as int, t).contains(x) {
            lemma_bio_matches_sound(ps, ps.len() as int, t, x);
        }
        if exists|i: int, j: int| 0 <= i < j < ps.len() && similar_bios(ps, i, j, t, x) {
            let (i, j) = choose|i: int, j: int| 0 <= i < j < ps.len() && similar_bios(ps, i, j, t, x);
            lemma_bio_row_complete(ps, i, ps.len() as int, j, t, x);
            lemma_bio_matches_complete(ps, ps.len() as int, i, t, x);
        }
    }
}


proof fn lemma_close_with_all(s: Seq<u64>, h: u64)
    ensures
        (forall|i: int| 0 <= i < s.len() ==> hamming(#[trigger] s[i], h) < 10) ==> close_with(s, h) == s.len(),
        (forall|i: int| 0 <= i < s.len() ==> hamming(#[trigger] s[i], h) >= 10) ==> close_with(s, h) == 0,
    decreases s.len(),
{
    if s.len() > 0 {
        let t = s.drop_last();
        lemma_close_with_all(t, h);
        assert(s[s.len() - 1] == s.last());
        if forall|i: int| 0 <= i < s.len() ==> hamming(#[trigger] s[i], h) < 10 {
            assert forall|i: int| 0 <= i < t.len() implies hamming(#[trigger] t[i], h) < 10 by {
                assert(t[i] == s[i]);
            }
        }
        if forall|i: int| 0 <= i < s.len() ==> hamming(#[trigger] s[i], h) >= 10 {
            assert forall|i: int| 0 <= i < t.len() implies hamming(#[trigger] t[i], h) >= 10 by {
                assert(t[i] == s[i]);
            }
        }
    }
}

proof fn lemma_close_pairs_all(s: Seq<u64>)
    ensures
        (forall|i: int, j: int| 0 <= i < j < s.len() ==> hamming(#[trigger] s[i], #[trigger] s[j]) < 10)
            ==> 2 * close_pairs(s) == s.len() * (s.len() - 1),
        (forall|i: int, j: int| 0 <= i < j < s.len() ==> hamming(#[trigger] s[i], #[trigger] s[j]) >= 10)
            ==> close_pairs(s) == 0,
    decreases s.len(),
{
    if s.len() > 0 {
        let t = s.drop_last();
        let n = s.len() as int;
        lemma_close_pairs_all(t);
        lemma_close_with_all(t, s.last());
        assert(s[n - 1] == s.last());
        if forall|i: int, j: int| 0 <= i < j < s.len() ==> hamming(#[trigger] s[i], #[trigger] s[j]) < 10 {
            assert forall|i: int, j: int| 0 <= i < j < t.len() implies hamming(#[trigger] t[i], #[trigger] t[j]) < 10 by {
                assert(t[i] == s[i] && t[j] == s[j]);
            }
            assert forall|i: int| 0 <= i < t.len() implies hamming(#[trigger] t[i], s.last()) < 10 by {
                assert(t[i] == s[i]);
                assert(hamming(s[i], s[n - 1]) < 10);
            }
            assert(2 * close_pairs(t) == (n - 1) * (n - 2));
            assert((n - 1) * (n - 2) + 2 * (n - 1) == n * (n - 1)) by (nonlinear_arith);
        }
        if forall|i: int, j: int| 0 <= i < j < s.len() ==> hamming(#[trigger] s[i], #[trigger] s[j]) >= 10 {
            assert forall|i: int, j: int| 0 <= i < j < t.len() implies hamming(#[trigger] t[i], #[trigger] t[j]) >= 10 by {
                assert(t[i] == s[i] && t[j] == s[j]);
            }
            assert forall|i: int| 0 <= i < t.len() implies hamming(#[trigger] t[i], s.last()) >= 10 by {
                assert(t[i] == s[i]);
                assert(hamming(s[i], s[n - 1]) >= 10);
            }
        }
    }
}

/// Matching avatars are the pairs of avatar hashes less than 10 bits apart:
/// when every pair is that close, every pair matches; when none is, none
/// does.
pub proof fn avatar_matches_count_close_pairs(c: ConfidenceFactors, ps: Seq<ClaimedProfile>)
    requires
        factors_match(c, ps),
    ensures
        (forall|i: int, j: int|
            0 <= i < j < hashes_of(ps).len() ==> hamming(#[trigger] hashes_of(ps)[i], #[trigger] hashes_of(ps)[j]) < 10)
            ==> c.avatar_matches == c.avatar_pairs,
        (forall|i: int, j: int|
            0 <= i < j < hashes_of(ps).len() ==> hamming(#[trigger] hashes_of(ps)[i], #[trigger] hashes_of(ps)[j]) >= 10)
            ==> c.avatar_matches == 0,
{
    let hs = hashes_of(ps);
    lemma_close_pairs_all(hs);
    if hs.len() >= 2 {
        let n = hs.len() as int;
        assert(n * (n - 1) >= 0) by (nonlinear_arith)
            requires
                n >= 2,
        ;
        if 2 * close_pairs(hs) == n * (n - 1) {
            assert(close_pairs(hs) == n * (n - 1) / 2);
        }
    }
}


proof fn lemma_list_found(m: Seq<Seq<Seq<char>>>, x: Seq<char>)
    ensures
        distinct(flatten(m)).no_duplicates(),
        distinct(flatten(m)).contains(x) <==> exists|k: int, j: int|
            0 <= k < m.len() && 0 <= j < m[k].len() && m[k][j] == x,
{
    lemma_flatten_contains(m, x);
    crate::text::lemma_distinct_without(flatten(m), None);
}

/// The e-mail addresses, phone numbers and linked URLs of a cluster are
/// those the accounts show, each listed once.
pub proof fn cluster_lists_law(ps: Seq<ClaimedProfile>, x: Seq<char>)
    ensures
        distinct(all_emails(ps)).no_duplicates(),
        distinct(all_phones(ps)).no_duplicates(),
        distinct(all_links(ps)).no_duplicates(),
        distinct(all_emails(ps)).contains(x) <==> exists|k: int, j: int|
            0 <= k < ps.len() && 0 <= j < ps[k].details.emails@.len() && (#[trigger] ps[k].details.emails@[j])@ == x,
        distinct(all_phones(ps)).contains(x) <==> exists|k: int, j: int|
            0 <= k < ps.len() && 0 <= j < ps[k].details.phone_numbers@.len()
                && (#[trigger] ps[k].details.phone_numbers@[j])@ == x,
        distinct(all_links(ps)).contains(x) <==> exists|k: int, j: int|
            0 <= k < ps.len() && 0 <= j < ps[k].details.linked_urls@.len()
                && (#[trigger] ps[k].details.linked_urls@[j])@ == x,
{
    let me = ps.map_values(|p: ClaimedProfile| views(p.details.emails@));
    let mp = ps.map_values(|p: ClaimedProfile| views(p.details.phone_numbers@));
    let ml = ps.map_values(|p: ClaimedProfile| views(p.details.linked_urls@));
    lemma_list_found(me, x);
    lemma_list_found(mp, x);
    lemma_list_found(ml, x);
    if exists|k: int, j: int|
        0 <= k < ps.len() && 0 <= j < ps[k].details.emails@.len() && (#[trigger] ps[k].details.emails@[j])@ == x {
        let (k, j) = choose|k: int, j: int|
            0 <= k < ps.len() && 0 <= j < ps[k].details.emails@.len() && (#[trigger] ps[k].details.emails@[j])@ == x;
        assert(me[k][j] == x);
    }
    if distinct(all_emails(ps)).contains(x) {
        let (k, j) = choose|k: int, j: int| 0 <= k < ps.len() && 0 <= j < me[k].len() && me[k][j] == x;
        assert(ps[k].details.emails@[j]@ == x);
    }
    if exists|k: int, j: int|
        0 <= k < ps.len() && 0 <= j < ps[k].details.phone_numbers@.len()
            && (#[trigger] ps[k].details.phone_numbers@[j])@ == x {
        let (k, j) = choose|k: int, j: int|
            0 <= k < ps.len() && 0 <= j < ps[k].details.phone_numbers@.len()
                && (#[trigger] ps[k].details.phone_numbers@[j])@ == x;
        assert(mp[k][j] == x);
    }
    if distinct(all_phones(ps)).contains(x) {
        let (k, j) = choose|k: int, j: int| 0 <= k < ps.len() && 0 <= j < mp[k].len() && mp[k][j] == x;
        assert(ps[k].details.phone_numbers@[j]@ == x);
    }
    if exists|k: int, j: int|
        0 <= k < ps.len() && 0 <= j < ps[k].details.linked_urls@.len()
            && (#[trigger] ps[k].details.linked_urls@[j])@ == x {
        let (k, j) = choose|k: int, j: int|
            0 <= k < ps.len() && 0 <= j < ps[k].details.linked_urls@.len()
                && (#[trigger] ps[k].details.linked_urls@[j])@ == x;
        assert(ml[k][j] == x);
    }
    if distinct(all_links(ps)).contains(x) {
        let (k, j) = choose|k: int, j: int| 0 <= k < ps.len() && 0 <= j < ml[k].len() && ml[k][j] == x;
        assert(ps[k].details.linked_urls@[j]@ == x);
    }
}

/// The inferred value of a field (the display name or the location) is
/// there exactly when some account shows one, and is then a value that an
/// account shows and that no other value is shown more often than.
pub proof fn inferred_is_most_common(ps: Seq<ClaimedProfile>, f: Field)
    ensures
        inferred(ps, f) is Some <==> exists|i: int| 0 <= i < ps.len() && (#[trigger] field_of(ps[i], f)) is Some,
        inferred(ps, f) matches Some(v) ==> {
            &&& exists|i: int| 0 <= i < ps.len() && #[trigger] field_of(ps[i], f) == Some(v)
            &&& forall|k: int|
                0 <= k < ps.len() && (#[trigger] field_of(ps[k], f)) is Some ==> count_of(
                    values_of(ps, f),
                    field_of(ps[k], f)->0,
                ) <= count_of(values_of(ps, f), v)
        },
{
    let vs = values_of(ps, f);
    mode_is_most_common(vs);
    if exists|i: int| 0 <= i < ps.len() && (#[trigger] field_of(ps[i], f)) is Some {
        let i = choose|i: int| 0 <= i < ps.len() && (#[trigger] field_of(ps[i], f)) is Some;
        let y = field_of(ps[i], f)->0;
        lemma_field_count(ps, f, y);
        lemma_count_contains(vs, y);
    }
    if vs.len() > 0 {
        let v = mode(vs);
        lemma_count_contains(vs, v);
        lemma_field_count(ps, f, v);
        assert forall|k: int|
            0 <= k < ps.len() && (#[trigger] field_of(ps[k], f)) is Some implies count_of(
                vs,
                field_of(ps[k], f)->0,
            ) <= count_of(vs, v) by {
            let y = field_of(ps[k], f)->0;
            lemma_field_count(ps, f, y);
            lemma_count_contains(vs, y);
            let j = choose|j: int| 0 <= j < vs.len() && vs[j] == y;
            assert(count_of(vs, vs[j]) <= count_of(vs, mode(vs)));
        }
    }
}

} // verus!
