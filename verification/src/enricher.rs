//! Enrichment of a found profile from the public API of its site: which API a
//! site has, where to ask it, and how its answer updates the profile.
//!
//! The request itself and the decoding of the JSON answer happen outside the
//! library; the answer reaches it as one of the plain records below, each
//! field the value the answer held under that name, or `None` when the answer
//! had no value of that type there.

use vstd::prelude::*;
use crate::text::{
    concat, decimal, find_char_from, find_char_from_exec, chars_of, lemma_find_char_from,
    signed_decimal, slice_chars, string_of, str_eq, u64_to_decimal, i64_to_decimal, views,
};
use crate::types::{ProfileDetails, opt_view};
use crate::identity::contains_string_pub;
use crate::timeline::{day_label, spec_day_label};

verus! {

// ---------------------------------------------------------------------------
// Which API, and where
// ---------------------------------------------------------------------------

/// The sites whose public API can enrich a profile.
#[derive(Clone, Copy, PartialEq, Eq, Debug)]
pub enum EnrichApi {
    GitHub,
    Reddit,
    HackerNews,
    DevTo,
    Keybase,
}

/// The API of a site, by the site's name.
pub open spec fn spec_enrich_api(site_name: Seq<char>) -> Option<EnrichApi> {
    if site_name == "GitHub"@ {
        Some(EnrichApi::GitHub)
    } else if site_name == "Reddit"@ {
        Some(EnrichApi::Reddit)
    } else if site_name == "HackerNews"@ {
        Some(EnrichApi::HackerNews)
    } else if site_name == "Dev.to"@ {
        Some(EnrichApi::DevTo)
    } else if site_name == "Keybase"@ {
        Some(EnrichApi::Keybase)
    } else {
        None
    }
}

/// The API of a site, by the site's name; `None` for a site without one.
pub fn enrich_api(site_name: &str) -> (r: Option<EnrichApi>)
    ensures
        r == spec_enrich_api(site_name@),
{
    if str_eq(site_name, "GitHub") {
        Some(EnrichApi::GitHub)
    } else if str_eq(site_name, "Reddit") {
        Some(EnrichApi::Reddit)
    } else if str_eq(site_name, "HackerNews") {
        Some(EnrichApi::HackerNews)
    } else if str_eq(site_name, "Dev.to") {
        Some(EnrichApi::DevTo)
    } else if str_eq(site_name, "Keybase") {
        Some(EnrichApi::Keybase)
    } else {
        None
    }
}

/// The address of a user's record in an API.
pub open spec fn spec_api_url(api: EnrichApi, username: Seq<char>) -> Seq<char> {
    match api {
        EnrichApi::GitHub => "https://api.github.com/users/"@ + username,
        EnrichApi::Reddit => "https://www.reddit.com/user/"@ + username + "/about.json"@,
        EnrichApi::HackerNews => "https://hacker-news.firebaseio.com/v0/user/"@ + username + ".json"@,
        EnrichApi::DevTo => "https://dev.to/api/users/by_username?url="@ + username,
        EnrichApi::Keybase => "https://keybase.io/_/api/1.0/user/lookup.json?usernames="@ + username,
    }
}

/// The address of a user's record in an API.
pub fn api_url(api: EnrichApi, username: &str) -> (r: String)
    ensures
        r@ == spec_api_url(api, username@),
{
    match api {
        EnrichApi::GitHub => concat("https://api.github.com/users/", username),
        EnrichApi::Reddit => {
            let a = concat("https://www.reddit.com/user/", username);
            concat(a.as_str(), "/about.json")
        },
        EnrichApi::HackerNews => {
            let a = concat("https://hacker-news.firebaseio.com/v0/user/", username);
            concat(a.as_str(), ".json")
        },
        EnrichApi::DevTo => concat("https://dev.to/api/users/by_username?url=", username),
        EnrichApi::Keybase => concat("https://keybase.io/_/api/1.0/user/lookup.json?usernames=", username),
    }
}

/// The `User-Agent` an API is asked with; `None` where no header is sent.
pub open spec fn spec_api_user_agent(api: EnrichApi) -> Option<Seq<char>> {
    match api {
        EnrichApi::GitHub => Some("raven-osint"@),
        EnrichApi::Reddit => Some("raven-osint/1.0"@),
        EnrichApi::DevTo => Some("raven-osint/1.0"@),
        EnrichApi::HackerNews => None,
        EnrichApi::Keybase => None,
    }
}

/// The `User-Agent` an API is asked with; `None` where no header is sent.
pub fn api_user_agent(api: EnrichApi) -> (r: Option<String>)
    ensures
        opt_view(r) == spec_api_user_agent(api),
{
    match api {
        EnrichApi::GitHub => Some(String::from_str("raven-osint")),
        EnrichApi::Reddit => Some(String::from_str("raven-osint/1.0")),
        EnrichApi::DevTo => Some(String::from_str("raven-osint/1.0")),
        EnrichApi::HackerNews => None,
        EnrichApi::Keybase => None,
    }
}

// ---------------------------------------------------------------------------
// The answers, as plain records
// ---------------------------------------------------------------------------

/// A GitHub user record.
pub struct GithubUser {
    pub name: Option<String>,
    pub bio: Option<String>,
    pub location: Option<String>,
    pub blog: Option<String>,
    pub followers: Option<u64>,
    pub following: Option<u64>,
    pub created_at: Option<String>,
    pub avatar_url: Option<String>,
    pub email: Option<String>,
    pub public_repos: Option<u64>,
    pub public_gists: Option<u64>,
}

/// The `data` of a Reddit `about.json`.
pub struct RedditAbout {
    pub icon_img: Option<String>,
    /// The creation time in seconds since the epoch (the JSON number cast to
    /// an integer).
    pub created_utc: Option<i64>,
    pub link_karma: Option<i64>,
    pub comment_karma: Option<i64>,
    pub is_employee: Option<bool>,
}

/// A Hacker News user record.
pub struct HackerNewsUser {
    pub about: Option<String>,
    /// The creation time in seconds since the epoch.
    pub created: Option<u64>,
    pub karma: Option<i64>,
}

/// A Dev.to user record.
pub struct DevToUser {
    pub name: Option<String>,
    pub summary: Option<String>,
    pub location: Option<String>,
    pub joined_at: Option<String>,
    pub profile_image: Option<String>,
    pub website_url: Option<String>,
    pub followers_count: Option<u64>,
    pub github_username: Option<String>,
    pub twitter_username: Option<String>,
}

/// One identity proof of a Keybase user.
pub struct KeybaseProof {
    pub proof_type: Option<String>,
    pub service_url: Option<String>,
}

/// The first user (`them[0]`) of a Keybase lookup.
pub struct KeybaseUser {
    /// `proofs_summary.all`, when it is an array.
    pub proofs: Option<Vec<KeybaseProof>>,
    /// `pictures.primary.url`.
    pub picture: Option<String>,
}

// ---------------------------------------------------------------------------
// How an answer updates a profile
// ---------------------------------------------------------------------------

/// A new value where the answer has one, else the old one.
pub open spec fn or_keep(new: Option<Seq<char>>, old: Option<Seq<char>>) -> Option<Seq<char>> {
    match new {
        Some(v) => Some(v),
        None => old,
    }
}

/// The value, unless it is empty.
pub open spec fn non_empty(o: Option<Seq<char>>) -> Option<Seq<char>> {
    match o {
        Some(v) => if v.len() > 0 {
            Some(v)
        } else {
            None
        },
        None => None,
    }
}

/// The decimal numeral of a count, if there is one.
pub open spec fn opt_decimal(o: Option<u64>) -> Option<Seq<char>> {
    match o {
        Some(n) => Some(decimal(n as nat)),
        None => None,
    }
}

/// The count, or 0 when there is none.
pub open spec fn u64_or_zero(o: Option<u64>) -> u64 {
    match o {
        Some(n) => n,
        None => 0,
    }
}

/// The signed count, or 0 when there is none.
pub open spec fn i64_or_zero(o: Option<i64>) -> i64 {
    match o {
        Some(n) => n,
        None => 0,
    }
}

/// The text, or the empty text when there is none.
pub open spec fn text_or_empty(o: Option<Seq<char>>) -> Seq<char> {
    match o {
        Some(v) => v,
        None => Seq::empty(),
    }
}

/// An address without its query: the text before the first `?`.
pub open spec fn before_query(s: Seq<char>) -> Seq<char> {
    match find_char_from(s, '?', 0) {
        Some(i) => s.take(i as int),
        None => s,
    }
}

/// The emails after adding `e`: added at the end unless it is empty or
/// already there.
pub open spec fn emails_with(emails: Seq<Seq<char>>, e: Option<Seq<char>>) -> Seq<Seq<char>> {
    match e {
        Some(x) => if x.len() > 0 && !emails.contains(x) {
            emails.push(x)
        } else {
            emails
        },
        None => emails,
    }
}

fn has_text(s: &String) -> (r: bool)
    ensures
        r == (s@.len() > 0),
{
    chars_of(s.as_str()).len() > 0
}

fn copy_if_some(new: &Option<String>, field: &mut Option<String>)
    ensures
        opt_view(*final(field)) == or_keep(opt_view(*new), opt_view(*old(field))),
{
    if let Some(v) = new {
        *field = Some(v.clone());
    }
}

fn copy_if_non_empty(new: &Option<String>, field: &mut Option<String>)
    ensures
        opt_view(*final(field)) == or_keep(non_empty(opt_view(*new)), opt_view(*old(field))),
{
    if let Some(v) = new {
        if has_text(v) {
            *field = Some(v.clone());
        }
    }
}

fn count_text(o: Option<u64>) -> (r: Option<String>)
    ensures
        opt_view(r) == opt_decimal(o),
{
    match o {
        Some(n) => Some(u64_to_decimal(n)),
        None => None,
    }
}

/// Updates a profile from a GitHub user record: the record's name, bio,
/// location, creation date and avatar replace what the page showed, a
/// non-empty blog replaces the website, the follower counts are the record's,
/// a new non-empty email is added, and the repository and gist counts (0
/// where missing) are recorded.
pub fn apply_github(profile: &mut ProfileDetails, data: &GithubUser)
    requires
        old(profile).extra_keys_distinct(),
    ensures
        final(profile).extra_keys_distinct(),
        opt_view(final(profile).display_name) == or_keep(opt_view(data.name), opt_view(old(profile).display_name)),
        opt_view(final(profile).bio) == or_keep(opt_view(data.bio), opt_view(old(profile).bio)),
        opt_view(final(profile).location) == or_keep(opt_view(data.location), opt_view(old(profile).location)),
        opt_view(final(profile).website) == or_keep(non_empty(opt_view(data.blog)), opt_view(old(profile).website)),
        opt_view(final(profile).followers) == opt_decimal(data.followers),
        opt_view(final(profile).following) == opt_decimal(data.following),
        opt_view(final(profile).joined_date) == or_keep(opt_view(data.created_at), opt_view(old(profile).joined_date)),
        opt_view(final(profile).avatar_url) == or_keep(opt_view(data.avatar_url), opt_view(old(profile).avatar_url)),
        views(final(profile).emails@) == emails_with(views(old(profile).emails@), opt_view(data.email)),
        final(profile).extra_map() == old(profile).extra_map()
            .insert("public_repos"@, decimal(u64_or_zero(data.public_repos) as nat))
            .insert("public_gists"@, decimal(u64_or_zero(data.public_gists) as nat)),
        final(profile).post_count == old(profile).post_count,
        final(profile).phone_numbers == old(profile).phone_numbers,
        final(profile).linked_urls == old(profile).linked_urls,
        final(profile).verified == old(profile).verified,
{
    copy_if_some(&data.name, &mut profile.display_name);
    copy_if_some(&data.bio, &mut profile.bio);
    copy_if_some(&data.location, &mut profile.location);
    copy_if_non_empty(&data.blog, &mut profile.website);
    profile.followers = count_text(data.followers);
    profile.following = count_text(data.following);
    copy_if_some(&data.created_at, &mut profile.joined_date);
    copy_if_some(&data.avatar_url, &mut profile.avatar_url);
    if let Some(email) = &data.email {
        if has_text(email) && !contains_string_pub(&profile.emails, email) {
            let e = email.clone();
            assert(views(profile.emails@.push(e)) =~= views(profile.emails@).push(e@));
            profile.emails.push(e);
        }
    }
    let repos = match data.public_repos {
        Some(n) => n,
        None => 0,
    };
    let gists = match data.public_gists {
        Some(n) => n,
        None => 0,
    };
    profile.insert_extra(String::from_str("public_repos"), u64_to_decimal(repos));
    profile.insert_extra(String::from_str("public_gists"), u64_to_decimal(gists));
}


fn strip_query(s: &String) -> (r: String)
    ensures
        r@ == before_query(s@),
{
    let cs = chars_of(s.as_str());
    match find_char_from_exec(cs.as_slice(), '?', 0) {
        Some(i) => {
            proof {
                lemma_find_char_from(cs@, '?', 0);
            }
            let head = slice_chars(cs.as_slice(), 0, i);
            assert(cs@.subrange(0, i as int) =~= cs@.take(i as int));
            string_of(head.as_slice())
        },
        None => s.clone(),
    }
}

/// The avatar of a Reddit record: its icon without the query, unless empty.
pub open spec fn reddit_icon(icon: Option<Seq<char>>) -> Option<Seq<char>> {
    match non_empty(icon) {
        Some(v) => Some(before_query(v)),
        None => None,
    }
}

/// The join date of a record's creation time, as `%Y-%m-%d`.
pub open spec fn created_day(secs: Option<i64>) -> Option<Seq<char>> {
    match secs {
        Some(t) => spec_day_label(t),
        None => None,
    }
}

fn created_day_exec(secs: Option<i64>) -> (r: Option<String>)
    ensures
        opt_view(r) == created_day(secs),
{
    match secs {
        Some(t) => day_label(t),
        None => None,
    }
}

/// Updates a profile from a Reddit `about.json`: a non-empty icon, without
/// its query, becomes the avatar, the creation time gives the join date, the
/// link and comment karma (0 where missing) are recorded, and whether the
/// user is a Reddit employee becomes the verified mark.
pub fn apply_reddit(profile: &mut ProfileDetails, data: &RedditAbout)
    requires
        old(profile).extra_keys_distinct(),
    ensures
        final(profile).extra_keys_distinct(),
        opt_view(final(profile).avatar_url) == or_keep(reddit_icon(opt_view(data.icon_img)), opt_view(old(profile).avatar_url)),
        opt_view(final(profile).joined_date) == or_keep(created_day(data.created_utc), opt_view(old(profile).joined_date)),
        final(profile).extra_map() == old(profile).extra_map()
            .insert("link_karma"@, signed_decimal(i64_or_zero(data.link_karma) as int))
            .insert("comment_karma"@, signed_decimal(i64_or_zero(data.comment_karma) as int)),
        final(profile).verified == data.is_employee,
        final(profile).display_name == old(profile).display_name,
        final(profile).bio == old(profile).bio,
        final(profile).location == old(profile).location,
        final(profile).website == old(profile).website,
        final(profile).followers == old(profile).followers,
        final(profile).following == old(profile).following,
        final(profile).post_count == old(profile).post_count,
        final(profile).emails == old(profile).emails,
        final(profile).phone_numbers == old(profile).phone_numbers,
        final(profile).linked_urls == old(profile).linked_urls,
{
    if let Some(icon) = &data.icon_img {
        if has_text(icon) {
            profile.avatar_url = Some(strip_query(icon));
        }
    }
    if let Some(day) = created_day_exec(data.created_utc) {
        profile.joined_date = Some(day);
    }
    let link = match data.link_karma {
        Some(n) => n,
        None => 0,
    };
    let comment = match data.comment_karma {
        Some(n) => n,
        None => 0,
    };
    profile.insert_extra(String::from_str("link_karma"), i64_to_decimal(link));
    profile.insert_extra(String::from_str("comment_karma"), i64_to_decimal(comment));
    profile.verified = data.is_employee;
}

/// The creation time of a Hacker News record as a signed count of seconds
/// (the unsigned value cast, as the API's number is read).
pub open spec fn hn_created_secs(created: Option<u64>) -> Option<i64> {
    match created {
        Some(t) => Some(t as i64),
        None => None,
    }
}

/// Updates a profile from a Hacker News user record: its `about` becomes the
/// bio, its creation time gives the join date, and its karma (0 where
/// missing) is recorded.
pub fn apply_hackernews(profile: &mut ProfileDetails, data: &HackerNewsUser)
    requires
        old(profile).extra_keys_distinct(),
    ensures
        final(profile).extra_keys_distinct(),
        opt_view(final(profile).bio) == or_keep(opt_view(data.about), opt_view(old(profile).bio)),
        opt_view(final(profile).joined_date) == or_keep(created_day(hn_created_secs(data.created)), opt_view(old(profile).joined_date)),
        final(profile).extra_map() == old(profile).extra_map()
            .insert("karma"@, signed_decimal(i64_or_zero(data.karma) as int)),
        final(profile).display_name == old(profile).display_name,
        final(profile).location == old(profile).location,
        final(profile).website == old(profile).website,
        final(profile).followers == old(profile).followers,
        final(profile).following == old(profile).following,
        final(profile).post_count == old(profile).post_count,
        final(profile).avatar_url == old(profile).avatar_url,
        final(profile).emails == old(profile).emails,
        final(profile).phone_numbers == old(profile).phone_numbers,
        final(profile).linked_urls == old(profile).linked_urls,
        final(profile).verified == old(profile).verified,
{
    copy_if_some(&data.about, &mut profile.bio);
    let secs = match data.created {
        Some(t) => Some(t as i64),
        None => None,
    };
    if let Some(day) = created_day_exec(secs) {
        profile.joined_date = Some(day);
    }
    let karma = match data.karma {
        Some(n) => n,
        None => 0,
    };
    profile.insert_extra(String::from_str("karma"), i64_to_decimal(karma));
}

fn text_or_empty_exec(o: &Option<String>) -> (r: String)
    ensures
        r@ == text_or_empty(opt_view(*o)),
{
    match o {
        Some(v) => v.clone(),
        None => String::new(),
    }
}

/// Updates a profile from a Dev.to user record: its name, summary, location,
/// join date and image replace what the page showed, a non-empty website
/// replaces the website, the follower count is the record's, and the linked
/// GitHub and Twitter names (empty where missing) are recorded.
pub fn apply_devto(profile: &mut ProfileDetails, data: &DevToUser)
    requires
        old(profile).extra_keys_distinct(),
    ensures
        final(profile).extra_keys_distinct(),
        opt_view(final(profile).display_name) == or_keep(opt_view(data.name), opt_view(old(profile).display_name)),
        opt_view(final(profile).bio) == or_keep(opt_view(data.summary), opt_view(old(profile).bio)),
        opt_view(final(profile).location) == or_keep(opt_view(data.location), opt_view(old(profile).location)),
        opt_view(final(profile).joined_date) == or_keep(opt_view(data.joined_at), opt_view(old(profile).joined_date)),
        opt_view(final(profile).avatar_url) == or_keep(opt_view(data.profile_image), opt_view(old(profile).avatar_url)),
        opt_view(final(profile).website) == or_keep(non_empty(opt_view(data.website_url)), opt_view(old(profile).website)),
        opt_view(final(profile).followers) == opt_decimal(data.followers_count),
        final(profile).extra_map() == old(profile).extra_map()
            .insert("github_username"@, text_or_empty(opt_view(data.github_username)))
            .insert("twitter_username"@, text_or_empty(opt_view(data.twitter_username))),
        final(profile).following == old(profile).following,
        final(profile).post_count == old(profile).post_count,
        final(profile).emails == old(profile).emails,
        final(profile).phone_numbers == old(profile).phone_numbers,
        final(profile).linked_urls == old(profile).linked_urls,
        final(profile).verified == old(profile).verified,
{
    copy_if_some(&data.name, &mut profile.display_name);
    copy_if_some(&data.summary, &mut profile.bio);
    copy_if_some(&data.location, &mut profile.location);
    copy_if_some(&data.joined_at, &mut profile.joined_date);
    copy_if_some(&data.profile_image, &mut profile.avatar_url);
    copy_if_non_empty(&data.website_url, &mut profile.website);
    profile.followers = count_text(data.followers_count);
    profile.insert_extra(String::from_str("github_username"), text_or_empty_exec(&data.github_username));
    profile.insert_extra(String::from_str("twitter_username"), text_or_empty_exec(&data.twitter_username));
}

/// The proofs of a Keybase user that name both a type and an address, as
/// (type, address) pairs in order.
pub open spec fn complete_proofs(ps: Seq<KeybaseProof>) -> Seq<(Seq<char>, Seq<char>)>
    decreases ps.len(),
{
    if ps.len() == 0 {
        Seq::empty()
    } else {
        complete_proofs(ps.drop_last()) + match (ps.last().proof_type, ps.last().service_url) {
            (Some(t), Some(u)) => seq![(t@, u@)],
            _ => Seq::empty(),
        }
    }
}

/// The site-specific facts after recording each proof as
/// `keybase_proof_<type>` with its address, in order.
pub open spec fn with_proofs(m: Map<Seq<char>, Seq<char>>, ps: Seq<(Seq<char>, Seq<char>)>) -> Map<Seq<char>, Seq<char>>
    decreases ps.len(),
{
    if ps.len() == 0 {
        m
    } else {
        with_proofs(m, ps.drop_last()).insert("keybase_proof_"@ + ps.last().0, ps.last().1)
    }
}

/// The proofs a Keybase answer carries: none without a user or a proof list.
pub open spec fn keybase_proofs(them: Option<KeybaseUser>) -> Seq<(Seq<char>, Seq<char>)> {
    match them {
        Some(u) => match u.proofs {
            Some(ps) => complete_proofs(ps@),
            None => Seq::empty(),
        },
        None => Seq::empty(),
    }
}

/// The picture a Keybase answer carries.
pub open spec fn keybase_picture(them: Option<KeybaseUser>) -> Option<Seq<char>> {
    match them {
        Some(u) => opt_view(u.picture),
        None => None,
    }
}

/// Updates a profile from a Keybase lookup (`them`, its first user, if any):
/// each proof with a type and an address is recorded as
/// `keybase_proof_<type>` and its address added to the linked addresses, and
/// the primary picture becomes the avatar.
pub fn apply_keybase(profile: &mut ProfileDetails, them: &Option<KeybaseUser>)
    requires
        old(profile).extra_keys_distinct(),
    ensures
        final(profile).extra_keys_distinct(),
        final(profile).extra_map() == with_proofs(old(profile).extra_map(), keybase_proofs(*them)),
        views(final(profile).linked_urls@) == views(old(profile).linked_urls@) + keybase_proofs(*them).map_values(
            |p: (Seq<char>, Seq<char>)| p.1,
        ),
        opt_view(final(profile).avatar_url) == or_keep(keybase_picture(*them), opt_view(old(profile).avatar_url)),
        final(profile).display_name == old(profile).display_name,
        final(profile).bio == old(profile).bio,
        final(profile).location == old(profile).location,
        final(profile).website == old(profile).website,
        final(profile).followers == old(profile).followers,
        final(profile).following == old(profile).following,
        final(profile).post_count == old(profile).post_count,
        final(profile).joined_date == old(profile).joined_date,
        final(profile).emails == old(profile).emails,
        final(profile).phone_numbers == old(profile).phone_numbers,
        final(profile).verified == old(profile).verified,
{
    let ghost m0 = old(profile).extra_map();
    let ghost l0 = views(old(profile).linked_urls@);
    if let Some(user) = them {
        if let Some(proofs) = &user.proofs {
            let mut i: usize = 0;
            while i < proofs.len()
                invariant
                    i <= proofs@.len(),
                    profile.extra_keys_distinct(),
                    profile.extra_map() == with_proofs(m0, complete_proofs(proofs@.take(i as int))),
                    views(profile.linked_urls@) == l0 + complete_proofs(proofs@.take(i as int)).map_values(
                        |p: (Seq<char>, Seq<char>)| p.1,
                    ),
                    profile.display_name == old(profile).display_name,
                    profile.bio == old(profile).bio,
                    profile.location == old(profile).location,
                    profile.website == old(profile).website,
                    profile.followers == old(profile).followers,
                    profile.following == old(profile).following,
                    profile.post_count == old(profile).post_count,
                    profile.joined_date == old(profile).joined_date,
                    profile.avatar_url == old(profile).avatar_url,
                    profile.emails == old(profile).emails,
                    profile.phone_numbers == old(profile).phone_numbers,
                    profile.verified == old(profile).verified,
                decreases proofs@.len() - i,
            {
                let ghost before = complete_proofs(proofs@.take(i as int));
                assert(proofs@.take(i + 1).drop_last() =~= proofs@.take(i as int));
                let p = &proofs[i];
                match (&p.proof_type, &p.service_url) {
                    (Some(t), Some(u)) => {
                        let key = concat("keybase_proof_", t.as_str());
                        let url = u.clone();
                        let ghost after = complete_proofs(proofs@.take(i + 1));
                        assert(after =~= before.push((t@, u@)));
                        assert(after.drop_last() =~= before);
                        profile.insert_extra(key, u.clone());
                        let ghost lb = profile.linked_urls@;
                        profile.linked_urls.push(url);
                        proof {
                            assert(views(profile.linked_urls@) =~= views(lb).push(u@));
                            assert(after.map_values(|p: (Seq<char>, Seq<char>)| p.1) =~= before.map_values(
                                |p: (Seq<char>, Seq<char>)| p.1,
                            ).push(u@));
                        }
                    },
                    _ => {
                        assert(complete_proofs(proofs@.take(i + 1)) =~= before);
                    },
                }
                i += 1;
            }
            assert(proofs@.take(proofs@.len() as int) =~= proofs@);
        } else {
            assert(with_proofs(m0, Seq::empty()) == m0);
            assert(views(profile.linked_urls@) =~= l0 + Seq::<(Seq<char>, Seq<char>)>::empty().map_values(
                |p: (Seq<char>, Seq<char>)| p.1,
            ));
        }
        copy_if_some(&user.picture, &mut profile.avatar_url);
    } else {
        assert(with_proofs(m0, Seq::empty()) == m0);
        assert(views(profile.linked_urls@) =~= l0 + Seq::<(Seq<char>, Seq<char>)>::empty().map_values(
            |p: (Seq<char>, Seq<char>)| p.1,
        ));
    }
}

} // verus!
