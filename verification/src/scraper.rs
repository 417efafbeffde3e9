//! Reading a profile page: Open Graph and meta tags, site-specific CSS
//! selectors, and the contact details found in the text.

use vstd::prelude::*;
use crate::pattern::{regex_matches, spec_regex_matches};
use crate::text::{
    chars_of, digit_count, distinct, distinct_without, lemma_distinct_without, push_distinct, string_of, trim,
    trim_end_class, trim_exec, views,
};
use crate::types::{opt_view, ProfileDetails, ScrapeConfig};

verus! {

// ---------------------------------------------------------------------------
// Contact details in text
// ---------------------------------------------------------------------------

/// The pattern of an e-mail address in profile text.
pub open spec fn email_pattern() -> Seq<char> {
    "[\\w.+\\-]+@[\\w\\-]+\\.[\\w.]+"@
}

/// The pattern of a phone number in profile text.
pub open spec fn phone_pattern() -> Seq<char> {
    "\\+?[\\d\\s\\-().]{10,17}"@
}

/// The pattern of a web address in profile text.
pub open spec fn url_pattern() -> Seq<char> {
    "https?://[^\\s\"'<>]+"@
}

/// The matches of `pattern` in `text`; none when the pattern does not
/// compile.
pub open spec fn matches_or_none(pattern: Seq<char>, text: Seq<char>) -> Seq<Seq<char>> {
    match spec_regex_matches(pattern, text) {
        Some(ms) => ms,
        None => Seq::empty(),
    }
}

/// The e-mail addresses in `text`, each once, in order of first appearance.
pub open spec fn spec_profile_emails(text: Seq<char>) -> Seq<Seq<char>> {
    distinct(matches_or_none(email_pattern(), text))
}

/// The trimmed matches of `ms` with at least nine digits, in order.
pub open spec fn phone_numbers_of(ms: Seq<Seq<char>>) -> Seq<Seq<char>>
    decreases ms.len(),
{
    if ms.len() == 0 {
        Seq::empty()
    } else {
        let t = trim(ms.last());
        phone_numbers_of(ms.drop_last()) + (if digit_count(t) >= 9 {
            seq![t]
        } else {
            Seq::empty()
        })
    }
}

/// The phone numbers in `text`: the trimmed matches with at least nine
/// digits, in order.
pub open spec fn spec_profile_phones(text: Seq<char>) -> Seq<Seq<char>> {
    phone_numbers_of(matches_or_none(phone_pattern(), text))
}

/// The characters stripped from the end of a web address.
pub open spec fn url_tail_chars() -> Seq<char> {
    seq!['.', ',', ')', ']']
}

/// Each web address without trailing `.`, `,`, `)` and `]`.
pub open spec fn clean_urls(ms: Seq<Seq<char>>) -> Seq<Seq<char>> {
    ms.map_values(|m: Seq<char>| trim_end_class(m, Some(url_tail_chars())))
}

/// The web addresses in `text`, without trailing punctuation, each once, in
/// order of first appearance.
pub open spec fn spec_profile_urls(text: Seq<char>) -> Seq<Seq<char>> {
    distinct(clean_urls(matches_or_none(url_pattern(), text)))
}

/// The matches of a pattern, or none when it does not compile.
fn matches_of(pattern: &str, text: &str) -> (r: Vec<String>)
    ensures
        views(r@) == matches_or_none(pattern@, text@),
{
    match regex_matches(pattern, text) {
        Some(v) => v,
        None => Vec::new(),
    }
}

/// The distinct strings of a list, in order of first appearance.
pub fn distinct_strings(v: &Vec<String>) -> (r: Vec<String>)
    ensures
        views(r@) == distinct(views(v@)),
{
    let mut r: Vec<String> = Vec::new();
    let mut i: usize = 0;
    while i < v.len()
        invariant
            i <= v@.len(),
            views(r@) == distinct_without(views(v@).take(i as int), None),
        decreases v@.len() - i,
    {
        let c = v[i].clone();
        push_distinct(&mut r, c, None, Ghost(views(v@).take(i as int)));
        assert(views(v@).take(i + 1) == views(v@).take(i as int).push(c@));
        i += 1;
    }
    assert(views(v@).take(v@.len() as int) == views(v@));
    r
}

/// The e-mail addresses in profile text, each once.
pub fn extract_emails(text: &str) -> (r: Vec<String>)
    ensures
        views(r@) == spec_profile_emails(text@),
{
    let ms = matches_of("[\\w.+\\-]+@[\\w\\-]+\\.[\\w.]+", text);
    distinct_strings(&ms)
}

fn digit_count_exec(s: &[char]) -> (n: usize)
    ensures
        n == digit_count(s@),
{
    let mut n: usize = 0;
    let mut i: usize = 0;
    while i < s.len()
        invariant
            i <= s@.len(),
            n == digit_count(s@.take(i as int)),
            n <= i,
        decreases s@.len() - i,
    {
        assert(s@.take(i + 1).drop_last() == s@.take(i as int));
        if '0' <= s[i] && s[i] <= '9' {
            n += 1;
        }
        i += 1;
    }
    assert(s@.take(s@.len() as int) == s@);
    n
}

/// The phone numbers in profile text: the trimmed matches with at least nine
/// digits.
pub fn extract_phones(text: &str) -> (r: Vec<String>)
    ensures
        views(r@) == spec_profile_phones(text@),
{
    let ms = matches_of("\\+?[\\d\\s\\-().]{10,17}", text);
    let mut r: Vec<String> = Vec::new();
    let mut i: usize = 0;
    while i < ms.len()
        invariant
            i <= ms@.len(),
            views(r@) == phone_numbers_of(views(ms@).take(i as int)),
        decreases ms@.len() - i,
    {
        assert(views(ms@).take(i + 1).drop_last() == views(ms@).take(i as int));
        let t = trim_exec(&chars_of(ms[i].as_str()));
        if digit_count_exec(&t) >= 9 {
            let s = string_of(&t);
            proof {
                crate::text::lemma_views_push(r@, s);
            }
            r.push(s);
        } else {
            assert(views(r@) =~= views(r@) + Seq::<Seq<char>>::empty());
        }
        i += 1;
    }
    assert(views(ms@).take(ms@.len() as int) == views(ms@));
    r
}

/// The web addresses in profile text, without trailing `.`, `,`, `)` and
/// `]`, each once.
pub fn extract_urls(text: &str) -> (r: Vec<String>)
    ensures
        views(r@) == spec_profile_urls(text@),
{
    let ms = matches_of("https?://[^\\s\"'<>]+", text);
    let tail = ['.', ',', ')', ']'];
    assert(tail@ == url_tail_chars());
    let mut cleaned: Vec<String> = Vec::new();
    let mut i: usize = 0;
    while i < ms.len()
        invariant
            i <= ms@.len(),
            tail@ == url_tail_chars(),
            views(cleaned@) == clean_urls(views(ms@)).take(i as int),
        decreases ms@.len() - i,
    {
        let t = crate::text::trim_end_class_exec(&chars_of(ms[i].as_str()), Some(&tail));
        let s = string_of(&t);
        proof {
            crate::text::lemma_views_push(cleaned@, s);
        }
        cleaned.push(s);
        assert(clean_urls(views(ms@)).take(i + 1) =~= clean_urls(views(ms@)).take(i as int).push(s@));
        i += 1;
    }
    assert(clean_urls(views(ms@)).take(ms@.len() as int) =~= clean_urls(views(ms@)));
    distinct_strings(&cleaned)
}

// ---------------------------------------------------------------------------
// HTML queries
// ---------------------------------------------------------------------------

/// What `scraper` returns for the attribute `attr` of the first element of
/// the parsed document `html` matching the CSS selector `selector` (`None`
/// when the selector does not parse, nothing matches, or the attribute is
/// missing).
pub uninterp spec fn spec_first_attr(html: Seq<char>, selector: Seq<char>, attr: Seq<char>) -> Option<Seq<char>>;

/// What `scraper` returns for the concatenated text of the first element of
/// the parsed document `html` matching the CSS selector `selector` (`None`
/// when the selector does not parse or nothing matches).
pub uninterp spec fn spec_first_text(html: Seq<char>, selector: Seq<char>) -> Option<Seq<char>>;

/// The attribute `attr` of the first element matching `selector`.
///
/// Trusted: wraps `scraper::Html::parse_document`, `scraper::Selector::parse`,
/// `Html::select` and the element's `attr`. The result depends on the three
/// strings alone; the contract names it (HTML parsing and CSS matching take
/// pages to state).
#[verifier::external_body]
fn first_attr(html: &str, selector: &str, attr: &str) -> (r: Option<String>)
    ensures
        opt_view(r) == spec_first_attr(html@, selector@, attr@),
{
    let doc = scraper::Html::parse_document(html);
    let sel = scraper::Selector::parse(selector).ok()?;
    let element = doc.select(&sel).next()?;
    element.value().attr(attr).map(|v| v.to_string())
}

/// The text of the first element matching `selector`.
///
/// Trusted: wraps `scraper::Html::parse_document`, `scraper::Selector::parse`,
/// `Html::select` and the element's `text`, whose pieces are concatenated. The
/// result depends on the two strings alone; the contract names it.
#[verifier::external_body]
fn first_text(html: &str, selector: &str) -> (r: Option<String>)
    ensures
        opt_view(r) == spec_first_text(html@, selector@),
{
    let doc = scraper::Html::parse_document(html);
    let sel = scraper::Selector::parse(selector).ok()?;
    let element = doc.select(&sel).next()?;
    Some(element.text().collect::<String>())
}

/// The trimmed value, when there is one.
pub open spec fn trimmed(o: Option<Seq<char>>) -> Option<Seq<char>> {
    match o {
        Some(v) => Some(trim(v)),
        None => None,
    }
}

/// The trimmed `content` of the first `meta` tag with the given `property`.
pub open spec fn spec_og(h: Seq<char>, property: Seq<char>) -> Option<Seq<char>> {
    trimmed(spec_first_attr(h, "meta[property='"@ + property + "']"@, "content"@))
}

/// The trimmed `content` of the first `meta` tag with the given `name`.
pub open spec fn spec_meta(h: Seq<char>, name: Seq<char>) -> Option<Seq<char>> {
    trimmed(spec_first_attr(h, "meta[name='"@ + name + "']"@, "content"@))
}

/// The trimmed text of the first element matching `selector`, when not empty.
pub open spec fn spec_css_text(h: Seq<char>, selector: Seq<char>) -> Option<Seq<char>> {
    match spec_first_text(h, selector) {
        Some(t) => if trim(t).len() > 0 {
            Some(trim(t))
        } else {
            None
        },
        None => None,
    }
}

/// The first of two optional values that is present.
pub open spec fn or_else(a: Option<Seq<char>>, b: Option<Seq<char>>) -> Option<Seq<char>> {
    match a {
        Some(x) => Some(x),
        None => b,
    }
}

fn trimmed_exec(o: Option<String>) -> (r: Option<String>)
    ensures
        opt_view(r) == trimmed(opt_view(o)),
{
    match o {
        Some(v) => {
            let t = trim_exec(&chars_of(v.as_str()));
            Some(string_of(&t))
        },
        None => None,
    }
}

/// The trimmed `content` of the first `meta` tag with the given Open Graph
/// `property`.
pub fn og(html: &str, property: &str) -> (r: Option<String>)
    ensures
        opt_view(r) == spec_og(html@, property@),
{
    let mut sel = String::from_str("meta[property='");
    sel.append(property);
    sel.append("']");
    trimmed_exec(first_attr(html, sel.as_str(), "content"))
}

/// The trimmed `content` of the first `meta` tag with the given `name`.
pub fn meta(html: &str, name: &str) -> (r: Option<String>)
    ensures
        opt_view(r) == spec_meta(html@, name@),
{
    let mut sel = String::from_str("meta[name='");
    sel.append(name);
    sel.append("']");
    trimmed_exec(first_attr(html, sel.as_str(), "content"))
}

/// The trimmed text of the first element matching `selector`, when not empty.
pub fn css_text(html: &str, selector: &str) -> (r: Option<String>)
    ensures
        opt_view(r) == spec_css_text(html@, selector@),
{
    match first_text(html, selector) {
        Some(t) => {
            let tc = trim_exec(&chars_of(t.as_str()));
            if tc.len() > 0 {
                Some(string_of(&tc))
            } else {
                None
            }
        },
        None => None,
    }
}

/// The attribute `attr` of the first element matching `selector`.
pub fn css_attr(html: &str, selector: &str, attr: &str) -> (r: Option<String>)
    ensures
        opt_view(r) == spec_first_attr(html@, selector@, attr@),
{
    first_attr(html, selector, attr)
}

fn or_else_exec(a: Option<String>, b: Option<String>) -> (r: Option<String>)
    ensures
        opt_view(r) == or_else(opt_view(a), opt_view(b)),
{
    match a {
        Some(x) => Some(x),
        None => b,
    }
}

// ---------------------------------------------------------------------------
// Profile page
// ---------------------------------------------------------------------------

/// A value, or when it is missing the text found with the optional selector.
pub open spec fn text_fallback(h: Seq<char>, base: Option<Seq<char>>, sel: Option<Seq<char>>) -> Option<Seq<char>> {
    match sel {
        Some(s) => or_else(base, spec_css_text(h, s)),
        None => base,
    }
}

/// The text found with the optional selector, else its attribute `attr`.
pub open spec fn text_or_attr(h: Seq<char>, sel: Option<Seq<char>>, attr: Seq<char>) -> Option<Seq<char>> {
    match sel {
        Some(s) => or_else(spec_css_text(h, s), spec_first_attr(h, s, attr)),
        None => None,
    }
}

/// The text found with the optional selector.
pub open spec fn text_only(h: Seq<char>, sel: Option<Seq<char>>) -> Option<Seq<char>> {
    match sel {
        Some(s) => spec_css_text(h, s),
        None => None,
    }
}

/// The selector for a field, when there is a configuration that gives one.
pub open spec fn cfg_sel(cfg: Option<ScrapeConfig>, f: spec_fn(ScrapeConfig) -> Option<String>) -> Option<Seq<char>> {
    match cfg {
        Some(c) => opt_view(f(c)),
        None => None,
    }
}

/// The display name read from a profile page.
pub open spec fn page_name(h: Seq<char>, cfg: Option<ScrapeConfig>) -> Option<Seq<char>> {
    text_fallback(
        h,
        or_else(spec_og(h, "og:title"@), spec_meta(h, "twitter:title"@)),
        cfg_sel(cfg, |c: ScrapeConfig| c.display_name),
    )
}

/// The bio read from a profile page.
pub open spec fn page_bio(h: Seq<char>, cfg: Option<ScrapeConfig>) -> Option<Seq<char>> {
    text_fallback(
        h,
        or_else(spec_og(h, "og:description"@), spec_meta(h, "description"@)),
        cfg_sel(cfg, |c: ScrapeConfig| c.bio),
    )
}

/// The avatar URL read from a profile page.
pub open spec fn page_avatar(h: Seq<char>, cfg: Option<ScrapeConfig>) -> Option<Seq<char>> {
    let base = or_else(spec_og(h, "og:image"@), spec_meta(h, "twitter:image"@));
    match cfg_sel(cfg, |c: ScrapeConfig| c.avatar) {
        Some(s) => or_else(base, spec_first_attr(h, s, "src"@)),
        None => base,
    }
}

/// The text searched for contact details: the bio, a space and the name.
pub open spec fn contact_text(h: Seq<char>, cfg: Option<ScrapeConfig>) -> Seq<char> {
    let bio = match page_bio(h, cfg) {
        Some(b) => b,
        None => Seq::empty(),
    };
    let name = match page_name(h, cfg) {
        Some(n) => n,
        None => Seq::empty(),
    };
    bio + " "@ + name
}

/// What a profile page shows, as read by [`profile_from_html`].
pub open spec fn page_profile_matches(d: ProfileDetails, h: Seq<char>, cfg: Option<ScrapeConfig>) -> bool {
    &&& opt_view(d.display_name) == page_name(h, cfg)
    &&& opt_view(d.bio) == page_bio(h, cfg)
    &&& opt_view(d.avatar_url) == page_avatar(h, cfg)
    &&& opt_view(d.location) == text_only(h, cfg_sel(cfg, |c: ScrapeConfig| c.location))
    &&& opt_view(d.website) == text_or_attr(h, cfg_sel(cfg, |c: ScrapeConfig| c.website), "href"@)
    &&& opt_view(d.followers) == text_only(h, cfg_sel(cfg, |c: ScrapeConfig| c.followers))
    &&& opt_view(d.following) == text_only(h, cfg_sel(cfg, |c: ScrapeConfig| c.following))
    &&& opt_view(d.post_count) == text_only(h, cfg_sel(cfg, |c: ScrapeConfig| c.post_count))
    &&& opt_view(d.joined_date) == text_or_attr(h, cfg_sel(cfg, |c: ScrapeConfig| c.joined_date), "datetime"@)
    &&& views(d.emails@) == spec_profile_emails(contact_text(h, cfg))
    &&& views(d.phone_numbers@) == spec_profile_phones(contact_text(h, cfg))
    &&& views(d.linked_urls@) == spec_profile_urls(contact_text(h, cfg))
    &&& d.verified is None
    &&& d.extra@.len() == 0
}

fn sel_text_fallback(html: &str, base: Option<String>, sel: &Option<String>) -> (r: Option<String>)
    ensures
        opt_view(r) == text_fallback(html@, opt_view(base), opt_view(*sel)),
{
    match sel {
        Some(s) => match base {
            Some(b) => Some(b),
            None => css_text(html, s.as_str()),
        },
        None => base,
    }
}

fn sel_text_or_attr(html: &str, sel: &Option<String>, attr: &str) -> (r: Option<String>)
    ensures
        opt_view(r) == text_or_attr(html@, opt_view(*sel), attr@),
{
    match sel {
        Some(s) => or_else_exec(css_text(html, s.as_str()), css_attr(html, s.as_str(), attr)),
        None => None,
    }
}

fn sel_text_only(html: &str, sel: &Option<String>) -> (r: Option<String>)
    ensures
        opt_view(r) == text_only(html@, opt_view(*sel)),
{
    match sel {
        Some(s) => css_text(html, s.as_str()),
        None => None,
    }
}

/// Reads a profile page: display name, avatar and bio from Open Graph tags
/// (else Twitter or plain `meta` tags), the site's CSS selectors filling in
/// what is missing and giving location, website, counts and join date, and
/// the e-mail addresses, phone numbers and web addresses found in the bio
/// and name.
pub fn profile_from_html(html: &str, selectors: Option<&ScrapeConfig>) -> (d: ProfileDetails)
    ensures
        page_profile_matches(d, html@, match selectors {
            Some(c) => Some(*c),
            None => None,
        }),
{
    let ghost cfg = match selectors {
        Some(c) => Some(*c),
        None => None,
    };
    let mut d = ProfileDetails::default();
    d.display_name = or_else_exec(og(html, "og:title"), meta(html, "twitter:title"));
    d.avatar_url = or_else_exec(og(html, "og:image"), meta(html, "twitter:image"));
    d.bio = or_else_exec(og(html, "og:description"), meta(html, "description"));
    match selectors {
        Some(cfg) => {
            d.display_name = sel_text_fallback(html, d.display_name, &cfg.display_name);
            d.bio = sel_text_fallback(html, d.bio, &cfg.bio);
            d.location = sel_text_only(html, &cfg.location);
            d.website = sel_text_or_attr(html, &cfg.website, "href");
            d.followers = sel_text_only(html, &cfg.followers);
            d.joined_date = sel_text_or_attr(html, &cfg.joined_date, "datetime");
            match &cfg.avatar {
                Some(s) => {
                    d.avatar_url = or_else_exec(d.avatar_url, css_attr(html, s.as_str(), "src"));
                },
                None => {},
            }
            d.following = sel_text_only(html, &cfg.following);
            d.post_count = sel_text_only(html, &cfg.post_count);
        },
        None => {},
    }
    let bio_text = match &d.bio {
        Some(b) => b.clone(),
        None => String::new(),
    };
    let name_text = match &d.display_name {
        Some(n) => n.clone(),
        None => String::new(),
    };
    let mut full = bio_text;
    full.append(" ");
    full.append(name_text.as_str());
    d.emails = extract_emails(full.as_str());
    d.phone_numbers = extract_phones(full.as_str());
    d.linked_urls = extract_urls(full.as_str());
    d
}


// ---------------------------------------------------------------------------
// Laws
// ---------------------------------------------------------------------------

/// The e-mail addresses and the web addresses read from profile text are
/// each listed once, and each is one of the matches found in the text (web
/// addresses without their trailing punctuation).
pub proof fn extracted_addresses_are_distinct(text: Seq<char>)
    ensures
        spec_profile_emails(text).no_duplicates(),
        spec_profile_urls(text).no_duplicates(),
        forall|x: Seq<char>|
            #[trigger] spec_profile_emails(text).contains(x) <==> matches_or_none(email_pattern(), text).contains(x),
        forall|x: Seq<char>|
            #[trigger] spec_profile_urls(text).contains(x) <==> clean_urls(matches_or_none(url_pattern(), text)).contains(x),
{
    lemma_distinct_without(matches_or_none(email_pattern(), text), None);
    lemma_distinct_without(clean_urls(matches_or_none(url_pattern(), text)), None);
}

} // verus!
