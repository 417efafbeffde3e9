//! The profile records that the investigation pipeline passes around.

use vstd::prelude::*;
use crate::text::views;

verus! {

/// What was learned about an account on one site.
#[derive(Clone, Debug)]
pub struct ProfileDetails {
    pub display_name: Option<String>,
    pub bio: Option<String>,
    pub location: Option<String>,
    pub website: Option<String>,
    pub followers: Option<String>,
    pub following: Option<String>,
    pub post_count: Option<String>,
    pub joined_date: Option<String>,
    pub avatar_url: Option<String>,
    pub emails: Vec<String>,
    pub phone_numbers: Vec<String>,
    pub linked_urls: Vec<String>,
    pub verified: Option<bool>,
    /// Site-specific facts, each key at most once.
    pub extra: Vec<(String, String)>,
}

/// An account found under the searched username, with what was learned of it.
#[derive(Clone, Debug)]
pub struct ClaimedProfile {
    pub site_name: String,
    pub site_url: String,
    pub username: String,
    pub details: ProfileDetails,
    pub avatar_phash: Option<u64>,
}

/// The outcome of asking one site about a username.
#[derive(Clone, Copy, PartialEq, Eq, Debug, Structural)]
pub enum QueryStatus {
    Claimed,
    Available,
    Unknown,
    Illegal,
    Waf,
}

/// What one site answered about a username.
#[derive(Clone, Debug)]
pub struct QueryResult {
    pub username: String,
    pub site_name: String,
    pub site_url_user: String,
    pub status: QueryStatus,
    /// How long the site took to answer, in milliseconds, when it was timed.
    pub query_time_ms: Option<u64>,
}

/// What the sites answered about one username, with a count of each outcome.
#[derive(Clone, Debug)]
pub struct SearchResults {
    pub username: String,
    pub results: Vec<QueryResult>,
    pub total_sites: usize,
    pub claimed_count: usize,
    pub available_count: usize,
    pub unknown_count: usize,
    pub illegal_count: usize,
    pub waf_count: usize,
    /// When the search was made, as text.
    pub timestamp: String,
}

/// The CSS selectors with which a site's profile page is read, per field.
#[derive(Clone, Debug)]
pub struct ScrapeConfig {
    pub display_name: Option<String>,
    pub bio: Option<String>,
    pub location: Option<String>,
    pub website: Option<String>,
    pub followers: Option<String>,
    pub following: Option<String>,
    pub joined_date: Option<String>,
    pub avatar: Option<String>,
    pub post_count: Option<String>,
}

/// The view of an optional string.
pub open spec fn opt_view(o: Option<String>) -> Option<Seq<char>> {
    match o {
        Some(s) => Some(s@),
        None => None,
    }
}

/// The keys of a list of key/value pairs, in order.
pub open spec fn pair_keys(v: Seq<(String, String)>) -> Seq<Seq<char>> {
    v.map_values(|p: (String, String)| p.0@)
}

/// The map that a list of key/value pairs with distinct keys stands for.
pub open spec fn pairs_map(v: Seq<(String, String)>) -> Map<Seq<char>, Seq<char>>
    decreases v.len(),
{
    if v.len() == 0 {
        Map::empty()
    } else {
        pairs_map(v.drop_last()).insert(v.last().0@, v.last().1@)
    }
}

impl ProfileDetails {
    /// The site-specific facts as a map.
    pub open spec fn extra_map(&self) -> Map<Seq<char>, Seq<char>> {
        pairs_map(self.extra@)
    }

    /// Each site-specific key occurs once.
    pub open spec fn extra_keys_distinct(&self) -> bool {
        pair_keys(self.extra@).no_duplicates()
    }

    /// Nothing learned yet.
    pub open spec fn is_empty_details(&self) -> bool {
        &&& self.display_name is None
        &&& self.bio is None
        &&& self.location is None
        &&& self.website is None
        &&& self.followers is None
        &&& self.following is None
        &&& self.post_count is None
        &&& self.joined_date is None
        &&& self.avatar_url is None
        &&& self.emails@.len() == 0
        &&& self.phone_numbers@.len() == 0
        &&& self.linked_urls@.len() == 0
        &&& self.verified is None
        &&& self.extra@.len() == 0
    }

    /// Sets the site-specific fact `key` to `value`, replacing an earlier value
    /// of the same key.
    pub fn insert_extra(&mut self, key: String, value: String)
        requires
            old(self).extra_keys_distinct(),
        ensures
            final(self).extra_keys_distinct(),
            final(self).extra_map() == old(self).extra_map().insert(key@, value@),
            final(self).display_name == old(self).display_name,
            final(self).bio == old(self).bio,
            final(self).location == old(self).location,
            final(self).website == old(self).website,
            final(self).followers == old(self).followers,
            final(self).following == old(self).following,
            final(self).post_count == old(self).post_count,
            final(self).joined_date == old(self).joined_date,
            final(self).avatar_url == old(self).avatar_url,
            final(self).emails == old(self).emails,
            final(self).phone_numbers == old(self).phone_numbers,
            final(self).linked_urls == old(self).linked_urls,
            final(self).verified == old(self).verified,
    {
        let mut i: usize = 0;
        while i < self.extra.len()
            invariant
                i <= self.extra@.len(),
                *self == *old(self),
                old(self).extra_keys_distinct(),
                forall|j: int| 0 <= j < i ==> self.extra@[j].0@ != key@,
            decreases self.extra@.len() - i,
        {
            if self.extra[i].0 == key {
                let ghost before = self.extra@;
                self.extra.set(i, (key, value));
                proof {
                    lemma_pairs_map_update(before, i as int, self.extra@[i as int]);
                    assert(pair_keys(self.extra@) =~= pair_keys(before));
                }
                return;
            }
            i += 1;
        }
        let ghost before = self.extra@;
        self.extra.push((key, value));
        proof {
            assert(self.extra@.drop_last() == before);
            assert(pair_keys(self.extra@) =~= pair_keys(before).push(key@));
            assert(!pair_keys(before).contains(key@)) by {
                if pair_keys(before).contains(key@) {
                    let k = choose|k: int| 0 <= k < pair_keys(before).len() && pair_keys(before)[k] == key@;
                    assert(before[k].0@ == key@);
                }
            }
        }
    }
}

/// Replacing the value of a key that occurs once replaces it in the map.
proof fn lemma_pairs_map_update(v: Seq<(String, String)>, i: int, p: (String, String))
    requires
        0 <= i < v.len(),
        pair_keys(v).no_duplicates(),
        v[i].0@ == p.0@,
    ensures
        pairs_map(v.update(i, p)) == pairs_map(v).insert(p.0@, p.1@),
    decreases v.len(),
{
    let w = v.update(i, p);
    if i == v.len() - 1 {
        assert(w.drop_last() =~= v.drop_last());
        assert(pairs_map(w) =~= pairs_map(v).insert(p.0@, p.1@));
    } else {
        assert(w.drop_last() =~= v.drop_last().update(i, p));
        assert(pair_keys(v.drop_last()) =~= pair_keys(v).drop_last());
        assert(pair_keys(v)[i] != pair_keys(v)[v.len() - 1]);
        lemma_pairs_map_update(v.drop_last(), i, p);
        assert(pairs_map(w) =~= pairs_map(v).insert(p.0@, p.1@));
    }
}

impl Default for ProfileDetails {
    fn default() -> (d: Self)
        ensures
            d.is_empty_details(),
    {
        ProfileDetails {
            display_name: None,
            bio: None,
            location: None,
            website: None,
            followers: None,
            following: None,
            post_count: None,
            joined_date: None,
            avatar_url: None,
            emails: Vec::new(),
            phone_numbers: Vec::new(),
            linked_urls: Vec::new(),
            verified: None,
            extra: Vec::new(),
        }
    }
}

/// A copy of an optional string.
pub fn copy_opt(o: &Option<String>) -> (r: Option<String>)
    ensures
        opt_view(r) == opt_view(*o),
{
    match o {
        Some(s) => Some(s.clone()),
        None => None,
    }
}

/// A copy of a list of strings.
pub fn copy_strings(v: &Vec<String>) -> (r: Vec<String>)
    ensures
        views(r@) == views(v@),
{
    let mut r: Vec<String> = Vec::new();
    let mut i: usize = 0;
    while i < v.len()
        invariant
            i <= v@.len(),
            views(r@) == views(v@).take(i as int),
        decreases v@.len() - i,
    {
        let s = v[i].clone();
        proof {
            crate::text::lemma_views_push(r@, s);
        }
        r.push(s);
        assert(views(v@).take(i + 1) =~= views(v@).take(i as int).push(v@[i as int]@));
        i += 1;
    }
    assert(views(v@).take(v@.len() as int) =~= views(v@));
    r
}

} // verus!
