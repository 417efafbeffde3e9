//! The HTML investigation report: each section as the markup it is made of,
//! and the page that holds them.
//!
//! Every value taken from a profile or a page is escaped before it is written
//! into the markup, with three exceptions:
//! the address a claimed-account row links to, the address of an avatar
//! image, and the year labels of the timeline are written as they are.

use vstd::prelude::*;
use crate::domain::{DomainInfo, DomainPage};
use crate::graph::{AccountGraph, spec_d3_json, to_d3_json};
use crate::identity::IdentityCluster;
use crate::report::{html_escape, spec_html_escape};
use crate::report_text::{CLAIMED_ROW_0, CLAIMED_ROW_1, CLAIMED_ROW_2, CLAIMED_ROW_3, AVATAR_IMG_0, AVATAR_IMG_1, PROFILE_CARD_0, PROFILE_CARD_1, PROFILE_CARD_2, PROFILE_CARD_3, PROFILE_CARD_4, PROFILE_CARD_5, PROFILE_CARD_6, PROFILE_CARD_7, PROFILE_CARD_8, PROFILE_CARD_9, SIMILARITY_HEAD, SIMILARITY_CARD_0, SIMILARITY_CARD_1, SIMILARITY_CARD_2, SIMILARITY_CARD_3, SIMILARITY_CARD_4, TIMELINE_HEAD, TIMELINE_ITEM_0, TIMELINE_ITEM_1, TIMELINE_ITEM_2, TIMELINE_EARLIEST_0, TIMELINE_EARLIEST_1, TIMELINE_EARLIEST_2, TIMELINE_FOOTPRINT_0, TIMELINE_FOOTPRINT_1, CLUSTER_SECTION_0, CLUSTER_SECTION_1, CLUSTER_SECTION_2, CLUSTER_SECTION_3, CLUSTER_SECTION_4, CLUSTER_SECTION_5, CLUSTER_SECTION_6, CLUSTER_SECTION_7, CLAIMED_SECTION_0, CLAIMED_SECTION_1, CLAIMED_SECTION_2, PROFILE_SECTION_0, PROFILE_SECTION_1, GRAPH_SECTION, WHOIS_BLOCK_0, WHOIS_BLOCK_1, PAGE_EMAILS_0, PAGE_EMAILS_1, PAGE_PHONES_0, PAGE_PHONES_1, SOCIAL_LINK_0, SOCIAL_LINK_1, PAGE_SOCIAL_0, PAGE_SOCIAL_1, PAGE_PREVIEW_0, PAGE_PREVIEW_1, PAGE_CARD_0, PAGE_CARD_1, PAGE_CARD_2, PAGE_CARD_3, PAGE_CARD_4, PAGE_CARD_5, PAGE_CARD_6, PAGE_CARD_7, PAGE_DESC_0, PAGE_DESC_1, DOMAIN_PAGES_0, DOMAIN_PAGES_1, DOMAIN_SECTION_0, DOMAIN_SECTION_1, DOMAIN_SECTION_2, DOMAIN_SECTION_3, DOMAIN_SECTION_4, DOMAIN_SECTION_5, DOMAIN_SECTION_6, DOMAIN_SECTION_7, DOMAIN_SECTION_8, DOMAIN_SECTION_9, DOMAIN_SECTION_10, DOMAIN_SECTION_11, REPORT_PAGE_0, REPORT_PAGE_1, REPORT_PAGE_2, REPORT_PAGE_3, REPORT_PAGE_4, REPORT_PAGE_5, REPORT_PAGE_6, REPORT_PAGE_7, REPORT_PAGE_8, REPORT_PAGE_9, REPORT_PAGE_10, REPORT_PAGE_11, REPORT_PAGE_12, REPORT_PAGE_13, REPORT_PAGE_14, REPORT_PAGE_15, REPORT_PAGE_16, REPORT_PAGE_17, SECTION_CLOSE, DNS_ROW_0, DNS_ROW_1, DNS_ROW_2};
use crate::text::{
    chars_of, chars_of_all, cviews, decimal, join, join_exec, string_of, u64_to_decimal, views,
};
use crate::timeline::{ActivityTimeline, TimelineEntry, year_map_view};
use crate::types::{ClaimedProfile, QueryResult, QueryStatus, SearchResults, opt_view};

verus! {

// ---------------------------------------------------------------------------
// Building text
// ---------------------------------------------------------------------------

/// The text, or `d` when there is none.
pub open spec fn text_or(o: Option<Seq<char>>, d: Seq<char>) -> Seq<char> {
    match o {
        Some(v) => v,
        None => d,
    }
}

/// The first `n` characters of `s` (all of them when it is shorter).
pub open spec fn prefix_of(s: Seq<char>, n: nat) -> Seq<char> {
    if s.len() <= n {
        s
    } else {
        s.take(n as int)
    }
}

fn put(s: &mut String, t: &str)
    ensures
        final(s)@ == old(s)@ + t@,
{
    s.append(t);
}

fn put_escaped(s: &mut String, t: &str)
    ensures
        final(s)@ == old(s)@ + spec_html_escape(t@),
{
    let e = html_escape(t);
    s.append(e.as_str());
}

fn put_decimal(s: &mut String, n: u64)
    ensures
        final(s)@ == old(s)@ + decimal(n as nat),
{
    let d = u64_to_decimal(n);
    s.append(d.as_str());
}

fn text_or_exec<'a>(o: &'a Option<String>, d: &'a str) -> (r: &'a str)
    ensures
        r@ == text_or(opt_view(*o), d@),
{
    match o {
        Some(v) => v.as_str(),
        None => d,
    }
}

fn has_text(s: &str) -> (r: bool)
    ensures
        r == (s@.len() > 0),
{
    chars_of(s).len() > 0
}

/// The strings joined with `sep` between neighbours.
pub fn join_strings(v: &Vec<String>, sep: &str) -> (r: String)
    ensures
        r@ == join(views(v@), sep@),
{
    let parts = chars_of_all(v);
    let s = chars_of(sep);
    let j = join_exec(&parts, s.as_slice());
    proof {
        assert(cviews(parts@) == parts@.map_values(|p: Vec<char>| p@));
    }
    string_of(j.as_slice())
}

pub(crate) fn prefix_exec(s: &str, n: usize) -> (r: String)
    ensures
        r@ == prefix_of(s@, n as nat),
{
    let cs = chars_of(s);
    if cs.len() <= n {
        string_of(cs.as_slice())
    } else {
        let mut out: Vec<char> = Vec::new();
        let mut i: usize = 0;
        while i < n
            invariant
                cs@ == s@,
                n < cs@.len(),
                i <= n,
                out@ == cs@.take(i as int),
            decreases n - i,
        {
            out.push(cs[i]);
            assert(cs@.take(i + 1) =~= cs@.take(i as int).push(cs@[i as int]));
            i += 1;
        }
        string_of(out.as_slice())
    }
}

// ---------------------------------------------------------------------------
// Claimed accounts
// ---------------------------------------------------------------------------

/// The row of one claimed account.
pub open spec fn spec_claimed_row(r: QueryResult) -> Seq<char> {
    CLAIMED_ROW_0@ + r.site_url_user@ + CLAIMED_ROW_1@ + spec_html_escape(r.site_name@) + CLAIMED_ROW_2@
        + spec_html_escape(r.site_url_user@) + CLAIMED_ROW_3@
}

/// The rows of the claimed accounts among the results, in order.
pub open spec fn spec_claimed_rows(rs: Seq<QueryResult>) -> Seq<char>
    decreases rs.len(),
{
    if rs.len() == 0 {
        Seq::empty()
    } else {
        spec_claimed_rows(rs.drop_last()) + if rs.last().status == QueryStatus::Claimed {
            spec_claimed_row(rs.last())
        } else {
            Seq::empty()
        }
    }
}

/// The rows of the claimed accounts among the results.
pub fn claimed_rows(results: &Vec<QueryResult>) -> (s: String)
    ensures
        s@ == spec_claimed_rows(results@),
{
    let mut s = String::new();
    let mut i: usize = 0;
    while i < results.len()
        invariant
            i <= results@.len(),
            s@ == spec_claimed_rows(results@.take(i as int)),
        decreases results@.len() - i,
    {
        assert(results@.take(i + 1).drop_last() =~= results@.take(i as int));
        let r = &results[i];
        if r.status == QueryStatus::Claimed {
            put(&mut s, CLAIMED_ROW_0);
            put(&mut s, r.site_url_user.as_str());
            put(&mut s, CLAIMED_ROW_1);
            put_escaped(&mut s, r.site_name.as_str());
            put(&mut s, CLAIMED_ROW_2);
            put_escaped(&mut s, r.site_url_user.as_str());
            put(&mut s, CLAIMED_ROW_3);
        }
        i += 1;
    }
    assert(results@.take(results@.len() as int) =~= results@);
    s
}

/// The claimed-accounts section: nothing without rows.
pub open spec fn spec_claimed_section(rows: Seq<char>, count: usize) -> Seq<char> {
    if rows.len() == 0 {
        Seq::empty()
    } else {
        CLAIMED_SECTION_0@ + decimal(count as nat) + CLAIMED_SECTION_1@ + rows + CLAIMED_SECTION_2@
    }
}

fn claimed_section(rows: &str, count: usize) -> (s: String)
    ensures
        s@ == spec_claimed_section(rows@, count),
{
    let mut s = String::new();
    if has_text(rows) {
        put(&mut s, CLAIMED_SECTION_0);
        put_decimal(&mut s, count as u64);
        put(&mut s, CLAIMED_SECTION_1);
        put(&mut s, rows);
        put(&mut s, CLAIMED_SECTION_2);
    }
    s
}

// ---------------------------------------------------------------------------
// Profiles
// ---------------------------------------------------------------------------

/// The avatar image of a profile, if it shows one.
pub open spec fn spec_avatar_html(url: Option<Seq<char>>) -> Seq<char> {
    match url {
        Some(u) => AVATAR_IMG_0@ + u + AVATAR_IMG_1@,
        None => Seq::empty(),
    }
}

/// The card of one profile.
pub open spec fn spec_profile_card(p: ClaimedProfile) -> Seq<char> {
    PROFILE_CARD_0@ + spec_avatar_html(opt_view(p.details.avatar_url)) + PROFILE_CARD_1@
        + spec_html_escape(p.site_url@) + PROFILE_CARD_2@ + spec_html_escape(p.site_name@) + PROFILE_CARD_3@
        + spec_html_escape(p.site_name@) + PROFILE_CARD_4@ + spec_html_escape(
        text_or(opt_view(p.details.display_name), "-"@),
    ) + PROFILE_CARD_5@ + spec_html_escape(text_or(opt_view(p.details.bio), ""@)) + PROFILE_CARD_6@
        + spec_html_escape(text_or(opt_view(p.details.location), ""@)) + PROFILE_CARD_7@
        + spec_html_escape(text_or(opt_view(p.details.joined_date), ""@)) + PROFILE_CARD_8@
        + spec_html_escape(join(views(p.details.emails@), ", "@)) + PROFILE_CARD_9@
}

/// The cards of the profiles, in order.
pub open spec fn spec_profile_cards(ps: Seq<ClaimedProfile>) -> Seq<char>
    decreases ps.len(),
{
    if ps.len() == 0 {
        Seq::empty()
    } else {
        spec_profile_cards(ps.drop_last()) + spec_profile_card(ps.last())
    }
}

#[verifier::rlimit(40)]
fn profile_card(s: &mut String, p: &ClaimedProfile)
    ensures
        final(s)@ == old(s)@ + spec_profile_card(*p),
{
    put(s, PROFILE_CARD_0);
    if let Some(url) = &p.details.avatar_url {
        put(s, AVATAR_IMG_0);
        put(s, url.as_str());
        put(s, AVATAR_IMG_1);
    }
    put(s, PROFILE_CARD_1);
    put_escaped(s, p.site_url.as_str());
    put(s, PROFILE_CARD_2);
    put_escaped(s, p.site_name.as_str());
    put(s, PROFILE_CARD_3);
    put_escaped(s, p.site_name.as_str());
    put(s, PROFILE_CARD_4);
    put_escaped(s, text_or_exec(&p.details.display_name, "-"));
    put(s, PROFILE_CARD_5);
    put_escaped(s, text_or_exec(&p.details.bio, ""));
    put(s, PROFILE_CARD_6);
    put_escaped(s, text_or_exec(&p.details.location, ""));
    put(s, PROFILE_CARD_7);
    put_escaped(s, text_or_exec(&p.details.joined_date, ""));
    put(s, PROFILE_CARD_8);
    let emails = join_strings(&p.details.emails, ", ");
    put_escaped(s, emails.as_str());
    put(s, PROFILE_CARD_9);
}

/// The cards of the profiles.
pub fn profile_cards(profiles: &[ClaimedProfile]) -> (s: String)
    ensures
        s@ == spec_profile_cards(profiles@),
{
    let mut s = String::new();
    let mut i: usize = 0;
    while i < profiles.len()
        invariant
            i <= profiles@.len(),
            s@ == spec_profile_cards(profiles@.take(i as int)),
        decreases profiles@.len() - i,
    {
        assert(profiles@.take(i + 1).drop_last() =~= profiles@.take(i as int));
        profile_card(&mut s, &profiles[i]);
        i += 1;
    }
    assert(profiles@.take(profiles@.len() as int) =~= profiles@);
    s
}

/// The profile section: nothing without cards.
pub open spec fn spec_profile_section(cards: Seq<char>) -> Seq<char> {
    if cards.len() == 0 {
        Seq::empty()
    } else {
        PROFILE_SECTION_0@ + cards + PROFILE_SECTION_1@
    }
}

fn profile_section(cards: &str) -> (s: String)
    ensures
        s@ == spec_profile_section(cards@),
{
    let mut s = String::new();
    if has_text(cards) {
        put(&mut s, PROFILE_SECTION_0);
        put(&mut s, cards);
        put(&mut s, PROFILE_SECTION_1);
    }
    s
}

// ---------------------------------------------------------------------------
// Bio similarity
// ---------------------------------------------------------------------------

/// The views of (site, site, score) triples.
pub open spec fn triple_views(v: Seq<(String, String, String)>) -> Seq<(Seq<char>, Seq<char>, Seq<char>)> {
    v.map_values(|m: (String, String, String)| (m.0@, m.1@, m.2@))
}

/// The card of one pair of similar bios; the score, in percent, is written
/// as given.
pub open spec fn spec_similarity_card(m: (Seq<char>, Seq<char>, Seq<char>)) -> Seq<char> {
    SIMILARITY_CARD_0@ + spec_html_escape(m.0) + SIMILARITY_CARD_1@ + spec_html_escape(m.1)
        + SIMILARITY_CARD_2@ + m.2 + SIMILARITY_CARD_3@ + m.2 + SIMILARITY_CARD_4@
}

/// The cards of the pairs, in order.
pub open spec fn spec_similarity_cards(ms: Seq<(Seq<char>, Seq<char>, Seq<char>)>) -> Seq<char>
    decreases ms.len(),
{
    if ms.len() == 0 {
        Seq::empty()
    } else {
        spec_similarity_cards(ms.drop_last()) + spec_similarity_card(ms.last())
    }
}

/// The bio-similarity section: nothing without a pair.
pub open spec fn spec_similarity_section(ms: Seq<(Seq<char>, Seq<char>, Seq<char>)>) -> Seq<char> {
    if ms.len() == 0 {
        Seq::empty()
    } else {
        SIMILARITY_HEAD@ + spec_similarity_cards(ms) + SECTION_CLOSE@
    }
}

/// The bio-similarity section of the pairs (site, site, score in percent).
pub fn similarity_section(similar: &Vec<(String, String, String)>) -> (s: String)
    ensures
        s@ == spec_similarity_section(triple_views(similar@)),
{
    let ghost tv = triple_views(similar@);
    let mut s = String::new();
    if similar.len() == 0 {
        return s;
    }
    put(&mut s, SIMILARITY_HEAD);
    let ghost head = s@;
    let mut i: usize = 0;
    while i < similar.len()
        invariant
            tv == triple_views(similar@),
            i <= similar@.len(),
            s@ == head + spec_similarity_cards(tv.take(i as int)),
        decreases similar@.len() - i,
    {
        assert(tv.take(i + 1).drop_last() =~= tv.take(i as int));
        let m = &similar[i];
        put(&mut s, SIMILARITY_CARD_0);
        put_escaped(&mut s, m.0.as_str());
        put(&mut s, SIMILARITY_CARD_1);
        put_escaped(&mut s, m.1.as_str());
        put(&mut s, SIMILARITY_CARD_2);
        put(&mut s, m.2.as_str());
        put(&mut s, SIMILARITY_CARD_3);
        put(&mut s, m.2.as_str());
        put(&mut s, SIMILARITY_CARD_4);
        i += 1;
    }
    assert(tv.take(tv.len() as int) =~= tv);
    put(&mut s, SECTION_CLOSE);
    s
}

// ---------------------------------------------------------------------------
// Timeline
// ---------------------------------------------------------------------------

/// The item of one year: the year as it is, then its platforms.
pub open spec fn spec_timeline_item(g: (Seq<char>, Seq<Seq<char>>)) -> Seq<char> {
    TIMELINE_ITEM_0@ + g.0 + TIMELINE_ITEM_1@ + spec_html_escape(join(g.1, ", "@)) + TIMELINE_ITEM_2@
}

/// The items of the years, in order.
pub open spec fn spec_timeline_items(gs: Seq<(Seq<char>, Seq<Seq<char>>)>) -> Seq<char>
    decreases gs.len(),
{
    if gs.len() == 0 {
        Seq::empty()
    } else {
        spec_timeline_items(gs.drop_last()) + spec_timeline_item(gs.last())
    }
}

/// The item of the earliest account.
pub open spec fn spec_earliest_item(e: Option<TimelineEntry>) -> Seq<char> {
    match e {
        Some(x) => TIMELINE_EARLIEST_0@ + spec_html_escape(x.date@) + TIMELINE_EARLIEST_1@
            + spec_html_escape(x.site_name@) + TIMELINE_EARLIEST_2@,
        None => Seq::empty(),
    }
}

/// The footprint line.
pub open spec fn spec_footprint_item(years: Option<u32>) -> Seq<char> {
    match years {
        Some(n) => TIMELINE_FOOTPRINT_0@ + decimal(n as nat) + TIMELINE_FOOTPRINT_1@,
        None => Seq::empty(),
    }
}

/// The timeline section: nothing without a timeline, or when it has no
/// year, no earliest account and no footprint.
pub open spec fn spec_timeline_section(t: Option<ActivityTimeline>) -> Seq<char> {
    match t {
        None => Seq::empty(),
        Some(tl) => if tl.platforms_by_year@.len() > 0 || tl.earliest_account is Some
            || tl.digital_footprint_years is Some {
            TIMELINE_HEAD@ + spec_timeline_items(year_map_view(tl.platforms_by_year@))
                + spec_earliest_item(tl.earliest_account) + spec_footprint_item(
                tl.digital_footprint_years,
            ) + SECTION_CLOSE@
        } else {
            Seq::empty()
        },
    }
}

/// The timeline section.
pub fn timeline_section(timeline: Option<&ActivityTimeline>) -> (s: String)
    ensures
        s@ == spec_timeline_section(match timeline {
            Some(t) => Some(*t),
            None => None,
        }),
{
    let mut s = String::new();
    let tl = match timeline {
        Some(t) => t,
        None => return s,
    };
    if !(tl.platforms_by_year.len() > 0 || tl.earliest_account.is_some()
        || tl.digital_footprint_years.is_some()) {
        return s;
    }
    let ghost gv = year_map_view(tl.platforms_by_year@);
    put(&mut s, TIMELINE_HEAD);
    let ghost head = s@;
    let mut i: usize = 0;
    while i < tl.platforms_by_year.len()
        invariant
            gv == year_map_view(tl.platforms_by_year@),
            i <= tl.platforms_by_year@.len(),
            s@ == head + spec_timeline_items(gv.take(i as int)),
        decreases tl.platforms_by_year@.len() - i,
    {
        assert(gv.take(i + 1).drop_last() =~= gv.take(i as int));
        let g = &tl.platforms_by_year[i];
        put(&mut s, TIMELINE_ITEM_0);
        put(&mut s, g.0.as_str());
        put(&mut s, TIMELINE_ITEM_1);
        let platforms = join_strings(&g.1, ", ");
        put_escaped(&mut s, platforms.as_str());
        put(&mut s, TIMELINE_ITEM_2);
        i += 1;
    }
    assert(gv.take(gv.len() as int) =~= gv);
    if let Some(e) = &tl.earliest_account {
        put(&mut s, TIMELINE_EARLIEST_0);
        put_escaped(&mut s, e.date.as_str());
        put(&mut s, TIMELINE_EARLIEST_1);
        put_escaped(&mut s, e.site_name.as_str());
        put(&mut s, TIMELINE_EARLIEST_2);
    }
    if let Some(years) = tl.digital_footprint_years {
        put(&mut s, TIMELINE_FOOTPRINT_0);
        put_decimal(&mut s, years as u64);
        put(&mut s, TIMELINE_FOOTPRINT_1);
    }
    put(&mut s, SECTION_CLOSE);
    s
}

// ---------------------------------------------------------------------------
// Identity summary
// ---------------------------------------------------------------------------

/// The style class of a confidence score (in percent).
pub open spec fn confidence_class(c: u32) -> Seq<char> {
    if c >= 80 {
        "very-high"@
    } else if c >= 60 {
        "high"@
    } else if c >= 40 {
        "medium"@
    } else if c >= 20 {
        "low"@
    } else {
        "very-low"@
    }
}

/// The words for a confidence score (in percent).
pub open spec fn confidence_label(c: u32) -> Seq<char> {
    if c >= 80 {
        "Very High"@
    } else if c >= 60 {
        "High"@
    } else if c >= 40 {
        "Medium"@
    } else if c >= 20 {
        "Low"@
    } else {
        "Very Low"@
    }
}

fn confidence_class_exec(c: u32) -> (r: &'static str)
    ensures
        r@ == confidence_class(c),
{
    if c >= 80 {
        "very-high"
    } else if c >= 60 {
        "high"
    } else if c >= 40 {
        "medium"
    } else if c >= 20 {
        "low"
    } else {
        "very-low"
    }
}

fn confidence_label_exec(c: u32) -> (r: &'static str)
    ensures
        r@ == confidence_label(c),
{
    if c >= 80 {
        "Very High"
    } else if c >= 60 {
        "High"
    } else if c >= 40 {
        "Medium"
    } else if c >= 20 {
        "Low"
    } else {
        "Very Low"
    }
}

/// The identity summary: nothing without a cluster.
pub open spec fn spec_cluster_section(c: Option<IdentityCluster>, confidence: u32) -> Seq<char> {
    match c {
        None => Seq::empty(),
        Some(cl) => CLUSTER_SECTION_0@ + spec_html_escape(text_or(opt_view(cl.inferred_name), "Unknown"@))
            + CLUSTER_SECTION_1@ + spec_html_escape(text_or(opt_view(cl.inferred_location), "Unknown"@))
            + CLUSTER_SECTION_2@ + spec_html_escape(join(views(cl.emails_found@), ", "@))
            + CLUSTER_SECTION_3@ + spec_html_escape(join(views(cl.phones_found@), ", "@))
            + CLUSTER_SECTION_4@ + confidence_class(confidence) + CLUSTER_SECTION_5@ + decimal(
            confidence as nat,
        ) + CLUSTER_SECTION_6@ + confidence_label(confidence) + CLUSTER_SECTION_7@,
    }
}

/// The identity summary, with the confidence score in percent.
pub fn cluster_section(cluster: Option<&IdentityCluster>, confidence: u32) -> (s: String)
    ensures
        s@ == spec_cluster_section(match cluster {
            Some(c) => Some(*c),
            None => None,
        }, confidence),
{
    let mut s = String::new();
    if let Some(cl) = cluster {
        put(&mut s, CLUSTER_SECTION_0);
        put_escaped(&mut s, text_or_exec(&cl.inferred_name, "Unknown"));
        put(&mut s, CLUSTER_SECTION_1);
        put_escaped(&mut s, text_or_exec(&cl.inferred_location, "Unknown"));
        put(&mut s, CLUSTER_SECTION_2);
        let emails = join_strings(&cl.emails_found, ", ");
        put_escaped(&mut s, emails.as_str());
        put(&mut s, CLUSTER_SECTION_3);
        let phones = join_strings(&cl.phones_found, ", ");
        put_escaped(&mut s, phones.as_str());
        put(&mut s, CLUSTER_SECTION_4);
        put(&mut s, confidence_class_exec(confidence));
        put(&mut s, CLUSTER_SECTION_5);
        put_decimal(&mut s, confidence as u64);
        put(&mut s, CLUSTER_SECTION_6);
        put(&mut s, confidence_label_exec(confidence));
        put(&mut s, CLUSTER_SECTION_7);
    }
    s
}

// ---------------------------------------------------------------------------
// Account graph
// ---------------------------------------------------------------------------

/// The graph section: nothing when the graph's JSON is empty or `null`.
pub open spec fn spec_graph_section(graph_json: Seq<char>) -> Seq<char> {
    if graph_json.len() == 0 || graph_json == "null"@ {
        Seq::empty()
    } else {
        GRAPH_SECTION@
    }
}

fn graph_section(graph_json: &str) -> (s: String)
    ensures
        s@ == spec_graph_section(graph_json@),
{
    if !has_text(graph_json) || crate::text::str_eq(graph_json, "null") {
        String::new()
    } else {
        String::from_str(GRAPH_SECTION)
    }
}


// ---------------------------------------------------------------------------
// Domain profile
// ---------------------------------------------------------------------------

/// One row of the domain table.
pub open spec fn spec_dns_row(label: Seq<char>, value: Seq<char>) -> Seq<char> {
    DNS_ROW_0@ + label + DNS_ROW_1@ + spec_html_escape(value) + DNS_ROW_2@
}

/// The row of a kind of record: its values joined, nothing without a value.
pub open spec fn spec_records_row(label: Seq<char>, records: Seq<Seq<char>>) -> Seq<char> {
    if records.len() == 0 {
        Seq::empty()
    } else {
        spec_dns_row(label, join(records, ", "@))
    }
}

/// The row of an optional value.
pub open spec fn spec_opt_row(label: Seq<char>, value: Option<Seq<char>>) -> Seq<char> {
    match value {
        Some(v) => spec_dns_row(label, v),
        None => Seq::empty(),
    }
}

/// The WHOIS block.
pub open spec fn spec_whois_html(whois: Option<Seq<char>>) -> Seq<char> {
    match whois {
        Some(w) => WHOIS_BLOCK_0@ + spec_html_escape(w) + WHOIS_BLOCK_1@,
        None => Seq::empty(),
    }
}

/// The description row: the first 200 characters of the description.
pub open spec fn spec_description_row(d: Option<Seq<char>>) -> Seq<char> {
    match d {
        Some(v) => spec_dns_row("Description"@, prefix_of(v, 200)),
        None => Seq::empty(),
    }
}

fn dns_row(s: &mut String, label: &str, value: &str)
    ensures
        final(s)@ == old(s)@ + spec_dns_row(label@, value@),
{
    put(s, DNS_ROW_0);
    put(s, label);
    put(s, DNS_ROW_1);
    put_escaped(s, value);
    put(s, DNS_ROW_2);
}

fn records_row(label: &str, records: &Vec<String>) -> (s: String)
    ensures
        s@ == spec_records_row(label@, views(records@)),
{
    let mut s = String::new();
    if records.len() > 0 {
        let joined = join_strings(records, ", ");
        dns_row(&mut s, label, joined.as_str());
    }
    s
}

fn opt_row(label: &str, value: &Option<String>) -> (s: String)
    ensures
        s@ == spec_opt_row(label@, opt_view(*value)),
{
    let mut s = String::new();
    if let Some(v) = value {
        dns_row(&mut s, label, v.as_str());
    }
    s
}

fn whois_html(whois: &Option<String>) -> (s: String)
    ensures
        s@ == spec_whois_html(opt_view(*whois)),
{
    let mut s = String::new();
    if let Some(w) = whois {
        put(&mut s, WHOIS_BLOCK_0);
        put_escaped(&mut s, w.as_str());
        put(&mut s, WHOIS_BLOCK_1);
    }
    s
}

fn description_row(d: &Option<String>) -> (s: String)
    ensures
        s@ == spec_description_row(opt_view(*d)),
{
    let mut s = String::new();
    if let Some(v) = d {
        let head = prefix_exec(v.as_str(), 200);
        dns_row(&mut s, "Description", head.as_str());
    }
    s
}

/// A list wrapped in the given markup: nothing when the list is empty.
pub open spec fn spec_wrapped_list(open: Seq<char>, items: Seq<Seq<char>>, close: Seq<char>) -> Seq<char> {
    if items.len() == 0 {
        Seq::empty()
    } else {
        open + spec_html_escape(join(items, ", "@)) + close
    }
}

/// The lines of a page's social links.
pub open spec fn spec_social_lines(links: Seq<Seq<char>>) -> Seq<char>
    decreases links.len(),
{
    if links.len() == 0 {
        Seq::empty()
    } else {
        spec_social_lines(links.drop_last()) + SOCIAL_LINK_0@ + spec_html_escape(links.last())
            + SOCIAL_LINK_1@
    }
}

/// The social block of a page: nothing without a link.
pub open spec fn spec_social_html(links: Seq<Seq<char>>) -> Seq<char> {
    if links.len() == 0 {
        Seq::empty()
    } else {
        PAGE_SOCIAL_0@ + spec_social_lines(links) + PAGE_SOCIAL_1@
    }
}

/// A text wrapped in the given markup, escaped: nothing when it is empty.
pub open spec fn spec_wrapped_text(open: Seq<char>, t: Seq<char>, close: Seq<char>) -> Seq<char> {
    if t.len() == 0 {
        Seq::empty()
    } else {
        open + spec_html_escape(t) + close
    }
}

/// The card of one scraped page.
pub open spec fn spec_page_card(p: DomainPage) -> Seq<char> {
    PAGE_CARD_0@ + spec_html_escape(p.path@) + PAGE_CARD_1@ + spec_html_escape(
        text_or(opt_view(p.title), "Untitled"@),
    ) + PAGE_CARD_2@ + spec_wrapped_text(
        PAGE_DESC_0@,
        text_or(opt_view(p.description), ""@),
        PAGE_DESC_1@,
    ) + PAGE_CARD_3@ + spec_wrapped_list(PAGE_EMAILS_0@, views(p.emails@), PAGE_EMAILS_1@) + PAGE_CARD_4@
        + spec_wrapped_list(PAGE_PHONES_0@, views(p.phones@), PAGE_PHONES_1@) + PAGE_CARD_5@
        + spec_social_html(views(p.social_links@)) + PAGE_CARD_6@ + spec_wrapped_text(
        PAGE_PREVIEW_0@,
        text_or(opt_view(p.text_preview), ""@),
        PAGE_PREVIEW_1@,
    ) + PAGE_CARD_7@
}

/// The cards of the pages, in order.
pub open spec fn spec_page_cards(ps: Seq<DomainPage>) -> Seq<char>
    decreases ps.len(),
{
    if ps.len() == 0 {
        Seq::empty()
    } else {
        spec_page_cards(ps.drop_last()) + spec_page_card(ps.last())
    }
}

/// The scraped-pages block: nothing without a page.
pub open spec fn spec_pages_html(ps: Seq<DomainPage>) -> Seq<char> {
    if ps.len() == 0 {
        Seq::empty()
    } else {
        DOMAIN_PAGES_0@ + spec_page_cards(ps) + DOMAIN_PAGES_1@
    }
}

fn wrapped_list(open: &str, items: &Vec<String>, close: &str) -> (s: String)
    ensures
        s@ == spec_wrapped_list(open@, views(items@), close@),
{
    let mut s = String::new();
    if items.len() > 0 {
        put(&mut s, open);
        let joined = join_strings(items, ", ");
        put_escaped(&mut s, joined.as_str());
        put(&mut s, close);
    }
    s
}

fn wrapped_text(open: &str, t: &str, close: &str) -> (s: String)
    ensures
        s@ == spec_wrapped_text(open@, t@, close@),
{
    let mut s = String::new();
    if has_text(t) {
        put(&mut s, open);
        put_escaped(&mut s, t);
        put(&mut s, close);
    }
    s
}

fn social_html(links: &Vec<String>) -> (s: String)
    ensures
        s@ == spec_social_html(views(links@)),
{
    let ghost lv = views(links@);
    let mut s = String::new();
    if links.len() == 0 {
        return s;
    }
    put(&mut s, PAGE_SOCIAL_0);
    let ghost head = s@;
    let mut i: usize = 0;
    while i < links.len()
        invariant
            lv == views(links@),
            i <= links@.len(),
            s@ == head + spec_social_lines(lv.take(i as int)),
        decreases links@.len() - i,
    {
        assert(lv.take(i + 1).drop_last() =~= lv.take(i as int));
        put(&mut s, SOCIAL_LINK_0);
        put_escaped(&mut s, links[i].as_str());
        put(&mut s, SOCIAL_LINK_1);
        i += 1;
    }
    assert(lv.take(lv.len() as int) =~= lv);
    put(&mut s, PAGE_SOCIAL_1);
    s
}

#[verifier::rlimit(40)]
fn page_card(s: &mut String, p: &DomainPage)
    ensures
        final(s)@ == old(s)@ + spec_page_card(*p),
{
    let desc = wrapped_text(PAGE_DESC_0, text_or_exec(&p.description, ""), PAGE_DESC_1);
    let emails = wrapped_list(PAGE_EMAILS_0, &p.emails, PAGE_EMAILS_1);
    let phones = wrapped_list(PAGE_PHONES_0, &p.phones, PAGE_PHONES_1);
    let social = social_html(&p.social_links);
    let preview = wrapped_text(PAGE_PREVIEW_0, text_or_exec(&p.text_preview, ""), PAGE_PREVIEW_1);
    put(s, PAGE_CARD_0);
    put_escaped(s, p.path.as_str());
    put(s, PAGE_CARD_1);
    put_escaped(s, text_or_exec(&p.title, "Untitled"));
    put(s, PAGE_CARD_2);
    put(s, desc.as_str());
    put(s, PAGE_CARD_3);
    put(s, emails.as_str());
    put(s, PAGE_CARD_4);
    put(s, phones.as_str());
    put(s, PAGE_CARD_5);
    put(s, social.as_str());
    put(s, PAGE_CARD_6);
    put(s, preview.as_str());
    put(s, PAGE_CARD_7);
}

fn pages_html(pages: &Vec<DomainPage>) -> (s: String)
    ensures
        s@ == spec_pages_html(pages@),
{
    let mut s = String::new();
    if pages.len() == 0 {
        return s;
    }
    put(&mut s, DOMAIN_PAGES_0);
    let ghost head = s@;
    let mut i: usize = 0;
    while i < pages.len()
        invariant
            i <= pages@.len(),
            s@ == head + spec_page_cards(pages@.take(i as int)),
        decreases pages@.len() - i,
    {
        assert(pages@.take(i + 1).drop_last() =~= pages@.take(i as int));
        page_card(&mut s, &pages[i]);
        i += 1;
    }
    assert(pages@.take(pages@.len() as int) =~= pages@);
    put(&mut s, DOMAIN_PAGES_1);
    s
}

/// The domain profile: nothing without a domain that resolves.
pub open spec fn spec_domain_section(d: Option<DomainInfo>) -> Seq<char> {
    match d {
        Some(di) => if di.resolves {
            DOMAIN_SECTION_0@ + spec_html_escape(di.domain@) + DOMAIN_SECTION_1@ + spec_records_row(
                "A"@,
                views(di.a_records@),
            ) + DOMAIN_SECTION_2@ + spec_records_row("AAAA"@, views(di.aaaa_records@))
                + DOMAIN_SECTION_3@ + spec_records_row("MX"@, views(di.mx_records@)) + DOMAIN_SECTION_4@
                + spec_records_row("TXT"@, views(di.txt_records@)) + DOMAIN_SECTION_5@
                + spec_records_row("NS"@, views(di.ns_records@)) + DOMAIN_SECTION_6@ + spec_opt_row(
                "Title"@,
                opt_view(di.homepage_title),
            ) + DOMAIN_SECTION_7@ + spec_description_row(opt_view(di.homepage_description))
                + DOMAIN_SECTION_8@ + spec_opt_row("Error"@, opt_view(di.error)) + DOMAIN_SECTION_9@
                + spec_whois_html(opt_view(di.whois)) + DOMAIN_SECTION_10@ + spec_pages_html(
                di.pages.pages@,
            ) + DOMAIN_SECTION_11@
        } else {
            Seq::empty()
        },
        None => Seq::empty(),
    }
}

/// The domain profile.
#[verifier::rlimit(60)]
pub fn domain_section(domain_info: Option<&DomainInfo>) -> (s: String)
    ensures
        s@ == spec_domain_section(match domain_info {
            Some(d) => Some(*d),
            None => None,
        }),
{
    let mut s = String::new();
    let di = match domain_info {
        Some(d) => d,
        None => return s,
    };
    if !di.resolves {
        return s;
    }
    let a = records_row("A", &di.a_records);
    let aaaa = records_row("AAAA", &di.aaaa_records);
    let mx = records_row("MX", &di.mx_records);
    let txt = records_row("TXT", &di.txt_records);
    let ns = records_row("NS", &di.ns_records);
    let title = opt_row("Title", &di.homepage_title);
    let desc = description_row(&di.homepage_description);
    let error = opt_row("Error", &di.error);
    let whois = whois_html(&di.whois);
    let pages = pages_html(&di.pages.pages);
    put(&mut s, DOMAIN_SECTION_0);
    put_escaped(&mut s, di.domain.as_str());
    put(&mut s, DOMAIN_SECTION_1);
    put(&mut s, a.as_str());
    put(&mut s, DOMAIN_SECTION_2);
    put(&mut s, aaaa.as_str());
    put(&mut s, DOMAIN_SECTION_3);
    put(&mut s, mx.as_str());
    put(&mut s, DOMAIN_SECTION_4);
    put(&mut s, txt.as_str());
    put(&mut s, DOMAIN_SECTION_5);
    put(&mut s, ns.as_str());
    put(&mut s, DOMAIN_SECTION_6);
    put(&mut s, title.as_str());
    put(&mut s, DOMAIN_SECTION_7);
    put(&mut s, desc.as_str());
    put(&mut s, DOMAIN_SECTION_8);
    put(&mut s, error.as_str());
    put(&mut s, DOMAIN_SECTION_9);
    put(&mut s, whois.as_str());
    put(&mut s, DOMAIN_SECTION_10);
    put(&mut s, pages.as_str());
    put(&mut s, DOMAIN_SECTION_11);
    s
}


// ---------------------------------------------------------------------------
// The page
// ---------------------------------------------------------------------------

/// The top of the page: title, heading and the counts of the search.
pub open spec fn spec_page_head(username: Seq<char>, r: SearchResults) -> Seq<char> {
    REPORT_PAGE_0@ + spec_html_escape(username) + REPORT_PAGE_1@ + spec_html_escape(username)
        + REPORT_PAGE_2@ + spec_html_escape(r.timestamp@) + REPORT_PAGE_3@ + decimal(r.total_sites as nat)
        + REPORT_PAGE_4@ + decimal(r.claimed_count as nat) + REPORT_PAGE_5@ + decimal(
        r.available_count as nat,
    ) + REPORT_PAGE_6@ + decimal(r.unknown_count as nat) + REPORT_PAGE_7@ + decimal(
        r.illegal_count as nat,
    ) + REPORT_PAGE_8@ + decimal(r.waf_count as nat) + REPORT_PAGE_9@
}

/// The rest of the page: the sections in order, then the script with the
/// graph's JSON.
pub open spec fn spec_page_body(
    cluster: Seq<char>,
    similarity: Seq<char>,
    timeline: Seq<char>,
    claimed: Seq<char>,
    profiles: Seq<char>,
    graph: Seq<char>,
    domain: Seq<char>,
    graph_json: Seq<char>,
) -> Seq<char> {
    cluster + REPORT_PAGE_10@ + similarity + REPORT_PAGE_11@ + timeline + REPORT_PAGE_12@ + claimed
        + REPORT_PAGE_13@ + profiles + REPORT_PAGE_14@ + graph + REPORT_PAGE_15@ + domain
        + REPORT_PAGE_16@ + graph_json + REPORT_PAGE_17@
}

/// The JSON of the account graph; empty without a graph.
pub open spec fn spec_graph_json(graph: Option<AccountGraph>) -> Seq<char> {
    match graph {
        Some(g) => spec_d3_json(g),
        None => Seq::empty(),
    }
}

/// The whole report. The bio-similarity section is written only with a
/// cluster.
pub open spec fn spec_html_report(
    username: Seq<char>,
    results: SearchResults,
    profiles: Seq<ClaimedProfile>,
    cluster: Option<IdentityCluster>,
    confidence: u32,
    similar: Seq<(Seq<char>, Seq<char>, Seq<char>)>,
    timeline: Option<ActivityTimeline>,
    graph: Option<AccountGraph>,
    domain_info: Option<DomainInfo>,
) -> Seq<char> {
    let graph_json = spec_graph_json(graph);
    spec_page_head(username, results) + spec_page_body(
        spec_cluster_section(cluster, confidence),
        if cluster is Some {
            spec_similarity_section(similar)
        } else {
            Seq::empty()
        },
        spec_timeline_section(timeline),
        spec_claimed_section(spec_claimed_rows(results.results@), results.claimed_count),
        spec_profile_section(spec_profile_cards(profiles)),
        spec_graph_section(graph_json),
        spec_domain_section(domain_info),
        graph_json,
    )
}

fn page_head(username: &str, r: &SearchResults) -> (s: String)
    ensures
        s@ == spec_page_head(username@, *r),
{
    let mut s = String::new();
    put(&mut s, REPORT_PAGE_0);
    put_escaped(&mut s, username);
    put(&mut s, REPORT_PAGE_1);
    put_escaped(&mut s, username);
    put(&mut s, REPORT_PAGE_2);
    put_escaped(&mut s, r.timestamp.as_str());
    put(&mut s, REPORT_PAGE_3);
    put_decimal(&mut s, r.total_sites as u64);
    put(&mut s, REPORT_PAGE_4);
    put_decimal(&mut s, r.claimed_count as u64);
    put(&mut s, REPORT_PAGE_5);
    put_decimal(&mut s, r.available_count as u64);
    put(&mut s, REPORT_PAGE_6);
    put_decimal(&mut s, r.unknown_count as u64);
    put(&mut s, REPORT_PAGE_7);
    put_decimal(&mut s, r.illegal_count as u64);
    put(&mut s, REPORT_PAGE_8);
    put_decimal(&mut s, r.waf_count as u64);
    put(&mut s, REPORT_PAGE_9);
    s
}

fn page_body(
    cluster: &str,
    similarity: &str,
    timeline: &str,
    claimed: &str,
    profiles: &str,
    graph: &str,
    domain: &str,
    graph_json: &str,
) -> (s: String)
    ensures
        s@ == spec_page_body(
            cluster@,
            similarity@,
            timeline@,
            claimed@,
            profiles@,
            graph@,
            domain@,
            graph_json@,
        ),
{
    let mut s = String::new();
    put(&mut s, cluster);
    put(&mut s, REPORT_PAGE_10);
    put(&mut s, similarity);
    put(&mut s, REPORT_PAGE_11);
    put(&mut s, timeline);
    put(&mut s, REPORT_PAGE_12);
    put(&mut s, claimed);
    put(&mut s, REPORT_PAGE_13);
    put(&mut s, profiles);
    put(&mut s, REPORT_PAGE_14);
    put(&mut s, graph);
    put(&mut s, REPORT_PAGE_15);
    put(&mut s, domain);
    put(&mut s, REPORT_PAGE_16);
    put(&mut s, graph_json);
    put(&mut s, REPORT_PAGE_17);
    s
}

/// The HTML report of a search: its counts, the identity summary (with the
/// confidence score in percent), the pairs of similar bios (site, site,
/// score in percent), the timeline, the claimed accounts, the profile cards,
/// the account graph and the domain profile.
pub fn generate_html_report(
    username: &str,
    results: &SearchResults,
    profiles: &[ClaimedProfile],
    cluster: Option<&IdentityCluster>,
    confidence: u32,
    similar: &Vec<(String, String, String)>,
    timeline: Option<&ActivityTimeline>,
    graph: Option<&AccountGraph>,
    domain_info: Option<&DomainInfo>,
) -> (html: String)
    ensures
        html@ == spec_html_report(
            username@,
            *results,
            profiles@,
            match cluster {
                Some(c) => Some(*c),
                None => None,
            },
            confidence,
            triple_views(similar@),
            match timeline {
                Some(t) => Some(*t),
                None => None,
            },
            match graph {
                Some(g) => Some(*g),
                None => None,
            },
            match domain_info {
                Some(d) => Some(*d),
                None => None,
            },
        ),
{
    let graph_json = match graph {
        Some(g) => to_d3_json(g),
        None => String::new(),
    };
    let cluster_html = cluster_section(cluster, confidence);
    let similarity_html = if cluster.is_some() {
        similarity_section(similar)
    } else {
        String::new()
    };
    let timeline_html = timeline_section(timeline);
    let rows = claimed_rows(&results.results);
    let claimed_html = claimed_section(rows.as_str(), results.claimed_count);
    let cards = profile_cards(profiles);
    let profile_html = profile_section(cards.as_str());
    let graph_html = graph_section(graph_json.as_str());
    let domain_html = domain_section(domain_info);
    let head = page_head(username, results);
    let body = page_body(
        cluster_html.as_str(),
        similarity_html.as_str(),
        timeline_html.as_str(),
        claimed_html.as_str(),
        profile_html.as_str(),
        graph_html.as_str(),
        domain_html.as_str(),
        graph_json.as_str(),
    );
    let mut html = head;
    put(&mut html, body.as_str());
    html
}

// ---------------------------------------------------------------------------
// The reporter
// ---------------------------------------------------------------------------

/// Collects what the HTML report is written from, then renders it.
pub struct HtmlReporter {
    /// Where the report is to be written.
    pub path: String,
    pub username: String,
    pub profiles: Vec<ClaimedProfile>,
    pub cluster: Option<IdentityCluster>,
    pub timeline: Option<ActivityTimeline>,
    pub graph: Option<AccountGraph>,
    pub domain_info: Option<DomainInfo>,
}

impl HtmlReporter {
    /// A reporter for the given path, with nothing collected yet.
    pub fn new(path: String) -> (r: HtmlReporter)
        ensures
            r.path == path,
            r.username@ == Seq::<char>::empty(),
            r.profiles@.len() == 0,
            r.cluster is None,
            r.timeline is None,
            r.graph is None,
            r.domain_info is None,
    {
        HtmlReporter {
            path,
            username: String::new(),
            profiles: Vec::new(),
            cluster: None,
            timeline: None,
            graph: None,
            domain_info: None,
        }
    }

    /// Records the searched username.
    pub fn write_search_start(&mut self, username: &str)
        ensures
            final(self).username@ == username@,
            final(self).path == old(self).path,
            final(self).profiles == old(self).profiles,
            final(self).cluster == old(self).cluster,
            final(self).timeline == old(self).timeline,
            final(self).graph == old(self).graph,
            final(self).domain_info == old(self).domain_info,
    {
        self.username = String::from_str(username);
    }

    /// Takes one answer of the search: the report shows the answers only once
    /// the search is complete, so nothing changes.
    pub fn write_result(&mut self, result: &QueryResult)
        ensures
            *final(self) == *old(self),
    {
    }

    /// Ends the report: it was rendered when the search completed, so nothing
    /// changes.
    pub fn finish(&mut self)
        ensures
            *final(self) == *old(self),
    {
    }

    /// Sets the profiles shown as cards.
    pub fn set_profiles(&mut self, profiles: Vec<ClaimedProfile>)
        ensures
            final(self).profiles == profiles,
            final(self).path == old(self).path,
            final(self).username == old(self).username,
            final(self).cluster == old(self).cluster,
            final(self).timeline == old(self).timeline,
            final(self).graph == old(self).graph,
            final(self).domain_info == old(self).domain_info,
    {
        self.profiles = profiles;
    }

    /// Sets the identity cluster.
    pub fn set_cluster(&mut self, cluster: IdentityCluster)
        ensures
            final(self).cluster == Some(cluster),
            final(self).path == old(self).path,
            final(self).username == old(self).username,
            final(self).profiles == old(self).profiles,
            final(self).timeline == old(self).timeline,
            final(self).graph == old(self).graph,
            final(self).domain_info == old(self).domain_info,
    {
        self.cluster = Some(cluster);
    }

    /// Sets the timeline.
    pub fn set_timeline(&mut self, timeline: ActivityTimeline)
        ensures
            final(self).timeline == Some(timeline),
            final(self).path == old(self).path,
            final(self).username == old(self).username,
            final(self).profiles == old(self).profiles,
            final(self).cluster == old(self).cluster,
            final(self).graph == old(self).graph,
            final(self).domain_info == old(self).domain_info,
    {
        self.timeline = Some(timeline);
    }

    /// Sets the account graph.
    pub fn set_graph(&mut self, graph: AccountGraph)
        ensures
            final(self).graph == Some(graph),
            final(self).path == old(self).path,
            final(self).username == old(self).username,
            final(self).profiles == old(self).profiles,
            final(self).cluster == old(self).cluster,
            final(self).timeline == old(self).timeline,
            final(self).domain_info == old(self).domain_info,
    {
        self.graph = Some(graph);
    }

    /// Sets the domain profile.
    pub fn set_domain_info(&mut self, info: DomainInfo)
        ensures
            final(self).domain_info == Some(info),
            final(self).path == old(self).path,
            final(self).username == old(self).username,
            final(self).profiles == old(self).profiles,
            final(self).cluster == old(self).cluster,
            final(self).timeline == old(self).timeline,
            final(self).graph == old(self).graph,
    {
        self.domain_info = Some(info);
    }

    /// The report of what was collected, for the given search results, the
    /// cluster's confidence score in percent and the pairs of similar bios
    /// (site, site, score in percent).
    pub fn render(
        &self,
        results: &SearchResults,
        confidence: u32,
        similar: &Vec<(String, String, String)>,
    ) -> (html: String)
        ensures
            html@ == spec_html_report(
                self.username@,
                *results,
                self.profiles@,
                self.cluster,
                confidence,
                triple_views(similar@),
                self.timeline,
                self.graph,
                self.domain_info,
            ),
    {
        generate_html_report(
            self.username.as_str(),
            results,
            self.profiles.as_slice(),
            self.cluster.as_ref(),
            confidence,
            similar,
            self.timeline.as_ref(),
            self.graph.as_ref(),
            self.domain_info.as_ref(),
        )
    }
}

} // verus!
