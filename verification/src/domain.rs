//! Personal-domain discovery: the domains a username may own, and what is
//! read from their DNS records, WHOIS text and pages.

use vstd::prelude::*;
use crate::text::{
    chars_of, cviews, find, find_char_from, find_char_from_exec, find_from, find_from_exec,
    lemma_find_char_from, lemma_find_from, rfind_before, rfind_before_exec, slice_chars,
    string_of, trim, trim_exec, views, spec_lowercase, utf8_len,
};
use crate::types::opt_view;

verus! {

/// What was found about a domain.
#[derive(Clone, Debug)]
pub struct DomainInfo {
    pub domain: String,
    pub resolves: bool,
    pub a_records: Vec<String>,
    pub aaaa_records: Vec<String>,
    pub mx_records: Vec<String>,
    pub txt_records: Vec<String>,
    pub ns_records: Vec<String>,
    pub whois: Option<String>,
    pub homepage_title: Option<String>,
    pub homepage_description: Option<String>,
    pub error: Option<String>,
    pub pages: DomainPages,
}

/// What was read from one page of a domain.
#[derive(Clone, Debug)]
pub struct DomainPage {
    pub path: String,
    pub title: Option<String>,
    pub description: Option<String>,
    pub emails: Vec<String>,
    pub phones: Vec<String>,
    pub social_links: Vec<String>,
    pub text_preview: Option<String>,
}

/// The pages read from a domain.
#[derive(Clone, Debug)]
pub struct DomainPages {
    pub pages: Vec<DomainPage>,
}

impl Default for DomainPages {
    fn default() -> (d: Self)
        ensures
            d.pages@.len() == 0,
    {
        DomainPages { pages: Vec::new() }
    }
}

impl DomainInfo {
    /// Nothing is known yet: every field is empty, `false` or absent.
    pub open spec fn is_blank(&self) -> bool {
        &&& self.domain@.len() == 0
        &&& !self.resolves
        &&& self.a_records@.len() == 0
        &&& self.aaaa_records@.len() == 0
        &&& self.mx_records@.len() == 0
        &&& self.txt_records@.len() == 0
        &&& self.ns_records@.len() == 0
        &&& self.whois is None
        &&& self.homepage_title is None
        &&& self.homepage_description is None
        &&& self.error is None
        &&& self.pages.pages@.len() == 0
    }
}

impl Default for DomainInfo {
    fn default() -> (d: Self)
        ensures
            d.is_blank(),
    {
        DomainInfo {
            domain: String::new(),
            resolves: false,
            a_records: Vec::new(),
            aaaa_records: Vec::new(),
            mx_records: Vec::new(),
            txt_records: Vec::new(),
            ns_records: Vec::new(),
            whois: None,
            homepage_title: None,
            homepage_description: None,
            error: None,
            pages: DomainPages::default(),
        }
    }
}

// ---------------------------------------------------------------------------
// Candidate domains
// ---------------------------------------------------------------------------

/// The top-level domains tried, in order.
pub open spec fn common_tlds() -> Seq<Seq<char>> {
    seq![
        "com"@, "dev"@, "io"@, "net"@, "org"@, "me"@, "app"@, "co"@, "xyz"@, "online"@,
        "tech"@, "site"@, "fun"@, "live"@, "pro"@, "name"@, "cc"@, "info"@, "in"@, "us"@,
        "uk"@, "ca"@, "de"@, "fr"@, "eu"@, "jp"@, "ru"@, "br"@, "au"@,
    ]
}

/// The domains a username may own: the username under each common top-level
/// domain, in the order they are tried.
pub fn candidate_domains(username: &str) -> (r: Vec<String>)
    ensures
        views(r@) == common_tlds().map_values(|t: Seq<char>| username@ + "."@ + t),
{
    let tlds: [&str; 29] = [
        "com", "dev", "io", "net", "org", "me", "app", "co", "xyz", "online",
        "tech", "site", "fun", "live", "pro", "name", "cc", "info", "in", "us",
        "uk", "ca", "de", "fr", "eu", "jp", "ru", "br", "au",
    ];
    let ghost want = common_tlds().map_values(|t: Seq<char>| username@ + "."@ + t);
    assert(tlds@.map_values(|t: &str| t@) =~= common_tlds());
    let mut r: Vec<String> = Vec::new();
    let mut i: usize = 0;
    while i < 29
        invariant
            i <= 29,
            tlds@.map_values(|t: &str| t@) == common_tlds(),
            want == common_tlds().map_values(|t: Seq<char>| username@ + "."@ + t),
            views(r@) == want.take(i as int),
        decreases 29 - i,
    {
        let mut d = String::from_str(username);
        d.append(".");
        d.append(tlds[i]);
        assert(tlds@.map_values(|t: &str| t@)[i as int] == tlds@[i as int]@);
        let ghost before = r@;
        r.push(d);
        assert(views(r@) =~= views(before).push(d@));
        assert(want.take(i + 1) =~= want.take(i as int).push(want[i as int]));
        i += 1;
    }
    assert(want.take(29) =~= want);
    r
}

// ---------------------------------------------------------------------------
// Page metadata
// ---------------------------------------------------------------------------

/// The trimmed text between the first `<title` tag and the next `</title>`,
/// when there is such text and it is not empty.
pub open spec fn page_title(h: Seq<char>) -> Option<Seq<char>> {
    match find(h, "<title"@) {
        Some(start) => match find_char_from(h, '>', start) {
            Some(te) => match find_from(h, "</title>"@, te + 1) {
                Some(e) => {
                    let t = trim(h.subrange(te + 1 as int, e as int));
                    if t.len() > 0 {
                        Some(t)
                    } else {
                        None
                    }
                },
                None => None,
            },
            None => None,
        },
        None => None,
    }
}

/// The tag around position `p`: from the last `<` before it (else the start
/// of the page) to the first `>` at or after it (else the end of the page).
pub open spec fn tag_around(h: Seq<char>, p: int) -> (int, int) {
    let ts = match rfind_before(h, "<"@, p) {
        Some(i) => i as int,
        None => 0,
    };
    let te = match find_char_from(h, '>', p as nat) {
        Some(i) => i as int,
        None => h.len() as int,
    };
    (ts, te)
}

/// The `content="..."` value of the tag that holds the first occurrence of
/// `pat` (wherever the value stands in that tag), when it is not empty.
pub open spec fn description_for(h: Seq<char>, pat: Seq<char>) -> Option<Seq<char>> {
    match find(h, pat) {
        Some(p) => {
            let (ts, te) = tag_around(h, p as int);
            match find(h.subrange(ts, te), "content=\""@) {
                Some(c) => {
                    let vs = ts + c + 9;
                    let ve = match find_char_from(h, '"', vs as nat) {
                        Some(q) => q as int,
                        None => vs,
                    };
                    let d = h.subrange(vs, ve);
                    if d.len() > 0 {
                        Some(d)
                    } else {
                        None
                    }
                },
                None => None,
            }
        },
        None => None,
    }
}

/// The page description: the value found for `name="description"`, else for
/// `name='description'`, else for `name=description`.
pub open spec fn page_description(h: Seq<char>) -> Option<Seq<char>> {
    match description_for(h, "name=\"description\""@) {
        Some(d) => Some(d),
        None => match description_for(h, "name='description'"@) {
            Some(d) => Some(d),
            None => description_for(h, "name=description"@),
        },
    }
}

fn title_of(h: &[char]) -> (r: Option<Vec<char>>)
    ensures
        match r {
            Some(t) => page_title(h@) == Some(t@),
            None => page_title(h@) is None,
        },
{
    let open = chars_of("<title");
    let close = chars_of("</title>");
    match find_from_exec(h, &open, 0) {
        Some(start) => {
            proof {
                lemma_find_from(h@, open@, 0);
            }
            match find_char_from_exec(h, '>', start) {
                Some(te) => {
                    proof {
                        lemma_find_char_from(h@, '>', start as nat);
                    }
                    let hl = h.len();
                    assert(te < hl);
                    match find_from_exec(h, &close, te + 1) {
                        Some(e) => {
                            proof {
                                lemma_find_from(h@, close@, (te + 1) as nat);
                            }
                            let inner = slice_chars(h, te + 1, e);
                            let t = trim_exec(&inner);
                            if t.len() > 0 {
                                Some(t)
                            } else {
                                None
                            }
                        },
                        None => None,
                    }
                },
                None => None,
            }
        },
        None => None,
    }
}

fn description_of(h: &[char], pat: &str) -> (r: Option<Vec<char>>)
    ensures
        match r {
            Some(d) => description_for(h@, pat@) == Some(d@),
            None => description_for(h@, pat@) is None,
        },
{
    let pc = chars_of(pat);
    let content = chars_of("content=\"");
    let lt = chars_of("<");
    proof {
        reveal_strlit("content=\"");
        reveal_strlit("<");
    }
    let p = match find_from_exec(h, &pc, 0) {
        Some(p) => p,
        None => return None,
    };
    proof {
        lemma_find_from(h@, pc@, 0);
    }
    let ts = match rfind_before_exec(h, &lt, p) {
        Some(i) => {
            proof {
                lemma_rfind_before(h@, lt@, p as int);
            }
            i
        },
        None => 0,
    };
    let te = match find_char_from_exec(h, '>', p) {
        Some(i) => {
            proof {
                lemma_find_char_from(h@, '>', p as nat);
            }
            i
        },
        None => h.len(),
    };
    assert(tag_around(h@, p as int) == (ts as int, te as int));
    let tag = slice_chars(h, ts, te);
    let c = match find_from_exec(&tag, &content, 0) {
        Some(c) => c,
        None => return None,
    };
    proof {
        lemma_find_from(tag@, content@, 0);
    }
    let vs = ts + c + 9;
    let ve = match find_char_from_exec(h, '"', vs) {
        Some(q) => {
            proof {
                lemma_find_char_from(h@, '"', vs as nat);
            }
            q
        },
        None => vs,
    };
    let d = slice_chars(h, vs, ve);
    if d.len() > 0 {
        Some(d)
    } else {
        None
    }
}

proof fn lemma_rfind_before(h: Seq<char>, n: Seq<char>, end: int)
    ensures
        rfind_before(h, n, end) matches Some(i) ==> i + n.len() <= end <= h.len(),
    decreases end,
{
    if !(end < n.len() || end > h.len()) && h.subrange(end - n.len(), end) != n && end != 0 {
        lemma_rfind_before(h, n, end - 1);
    }
}

/// Reads the page title (the trimmed text of the first `<title>` element) and
/// the meta description from an HTML document, each replacing the earlier
/// value only when found and not empty.
pub fn extract_page_metadata(html: &str, title: &mut Option<String>, description: &mut Option<String>)
    ensures
        opt_view(*final(title)) == (match page_title(html@) {
            Some(t) => Some(t),
            None => opt_view(*old(title)),
        }),
        page_title(html@) is None ==> *final(title) == *old(title),
        opt_view(*final(description)) == (match page_description(html@) {
            Some(d) => Some(d),
            None => opt_view(*old(description)),
        }),
        page_description(html@) is None ==> *final(description) == *old(description),
{
    let h = chars_of(html);
    match title_of(&h) {
        Some(t) => {
            *title = Some(string_of(&t));
        },
        None => {},
    }
    match description_of(&h, "name=\"description\"") {
        Some(d) => {
            *description = Some(string_of(&d));
            return;
        },
        None => {},
    }
    match description_of(&h, "name='description'") {
        Some(d) => {
            *description = Some(string_of(&d));
            return;
        },
        None => {},
    }
    match description_of(&h, "name=description") {
        Some(d) => {
            *description = Some(string_of(&d));
        },
        None => {},
    }
}

// ---------------------------------------------------------------------------
// WHOIS summary
// ---------------------------------------------------------------------------

/// The WHOIS fields looked for, lower-cased and without their colon, in the
/// order they are reported.
pub open spec fn whois_keys() -> Seq<Seq<char>> {
    seq![
        "domain name"@, "registry domain id"@, "registrar"@, "registrar url"@,
        "creation date"@, "registry expiry date"@, "updated date"@, "registrant name"@,
        "registrant organization"@, "registrant email"@, "admin email"@, "tech email"@,
        "name server"@, "dnssec"@, "status"@, "registrar iana id"@,
    ]
}

/// The index of the character of `s` that starts at byte `b` of its UTF-8
/// encoding, searching from character `from` whose byte offset is `at`.
pub open spec fn char_at_byte_from(s: Seq<char>, b: int, from: int, at: int) -> Option<nat>
    decreases s.len() - from,
{
    if from < 0 || from > s.len() || at > b {
        None
    } else if at == b {
        Some(from as nat)
    } else if from == s.len() {
        None
    } else {
        char_at_byte_from(s, b, from + 1, at + crate::text::char_utf8_len(s[from]))
    }
}

/// The index of the character of `s` that starts at byte `b` of its UTF-8
/// encoding (`s.len()` for the end), when `b` is a character boundary.
pub open spec fn char_at_byte(s: Seq<char>, b: int) -> Option<nat> {
    char_at_byte_from(s, b, 0, 0)
}

/// Where the line of key `k` starts in the raw text: the byte offset at which
/// `k` first occurs in the lower-cased text, as a character index of the raw
/// text. `Err` when that offset does not fall on a character boundary of the
/// raw text (where slicing the raw text there would panic).
pub open spec fn key_start(raw: Seq<char>, lower: Seq<char>, k: Seq<char>) -> Result<Option<nat>, ()> {
    match find(lower, k) {
        Some(i) => match char_at_byte(raw, crate::text::utf8_len(lower.take(i as int)) as int) {
            Some(j) => Ok(Some(j)),
            None => Err(()),
        },
        None => Ok(None),
    }
}

/// The trimmed rest of the raw line starting at character `j`.
pub open spec fn line_from(raw: Seq<char>, j: nat) -> Seq<char> {
    let e = match find_char_from(raw, '\n', j) {
        Some(e) => e,
        None => raw.len(),
    };
    trim(raw.subrange(j as int, e as int))
}

/// Every key's offset falls on a character boundary of the raw text (the
/// summary can be computed without a slicing panic).
pub open spec fn whois_offsets_valid(raw: Seq<char>) -> bool {
    forall|i: int| 0 <= i < 16 ==> key_start(raw, spec_lowercase(raw), #[trigger] whois_keys()[i]) is Ok
}

/// The summary lines of the first `n` keys: each key's line, when not empty
/// and not already listed.
pub open spec fn whois_lines(raw: Seq<char>, lower: Seq<char>, n: int) -> Seq<Seq<char>>
    decreases n,
{
    if n <= 0 {
        Seq::empty()
    } else {
        let prev = whois_lines(raw, lower, n - 1);
        match key_start(raw, lower, whois_keys()[n - 1]) {
            Ok(Some(j)) => {
                let line = line_from(raw, j);
                if line.len() > 0 && !prev.contains(line) {
                    prev.push(line)
                } else {
                    prev
                }
            },
            _ => prev,
        }
    }
}

/// The WHOIS summary: the line of each interesting field found, joined by
/// newlines; when none is found, the first 500 characters of the first 15
/// lines of the raw text.
pub open spec fn spec_summarize_whois(raw: Seq<char>) -> Seq<char> {
    let ls = whois_lines(raw, spec_lowercase(raw), 16);
    if ls.len() == 0 {
        let head = crate::text::spec_lines(raw);
        let joined = crate::text::join(head.take(if head.len() < 15 { head.len() as int } else { 15 }), "\n"@);
        joined.take(if joined.len() < 500 { joined.len() as int } else { 500 })
    } else {
        crate::text::join(ls, "\n"@)
    }
}

proof fn lemma_utf8_len_take(s: Seq<char>, i: int)
    requires
        0 <= i < s.len(),
    ensures
        crate::text::utf8_len(s.take(i + 1)) == crate::text::utf8_len(s.take(i))
            + crate::text::char_utf8_len(s[i]),
{
    assert(s.take(i + 1).drop_last() == s.take(i));
}

/// The number of bytes of the UTF-8 encoding of the first `i` characters.
fn utf8_prefix_len(s: &[char], i: usize) -> (n: u128)
    requires
        i <= s@.len(),
    ensures
        n == crate::text::utf8_len(s@.take(i as int)),
        n <= 4 * i,
{
    let mut n: u128 = 0;
    let mut k: usize = 0;
    while k < i
        invariant
            k <= i <= s@.len(),
            n == crate::text::utf8_len(s@.take(k as int)),
            n <= 4 * k,
        decreases i - k,
    {
        proof {
            lemma_utf8_len_take(s@, k as int);
        }
        n = n + crate::text::char_utf8_len_exec(s[k]) as u128;
        k += 1;
    }
    n
}

/// The index of the character that starts at byte `b`, when `b` is a
/// character boundary.
fn char_index_at_byte(s: &[char], b: u128) -> (r: Option<usize>)
    requires
        b <= u128::MAX - 8,
    ensures
        match r {
            Some(j) => char_at_byte(s@, b as int) == Some(j as nat),
            None => char_at_byte(s@, b as int) is None,
        },
{
    let mut from: usize = 0;
    let mut at: u128 = 0;
    loop
        invariant
            from <= s@.len(),
            b <= u128::MAX - 8,
            char_at_byte(s@, b as int) == char_at_byte_from(s@, b as int, from as int, at as int),
        decreases s@.len() - from,
    {
        if at > b {
            return None;
        }
        if at == b {
            return Some(from);
        }
        if from == s.len() {
            return None;
        }
        at = at + crate::text::char_utf8_len_exec(s[from]) as u128;
        from += 1;
    }
}

/// Where key `k`'s line starts in the raw text (see [`key_start`]).
fn key_start_exec(raw: &[char], lower: &[char], k: &[char]) -> (r: Result<Option<usize>, ()>)
    ensures
        match r {
            Ok(Some(j)) => key_start(raw@, lower@, k@) == Ok::<Option<nat>, ()>(Some(j as nat)),
            Ok(None) => key_start(raw@, lower@, k@) == Ok::<Option<nat>, ()>(None),
            Err(_) => key_start(raw@, lower@, k@) is Err,
        },
{
    match find_from_exec(lower, k, 0) {
        Some(i) => {
            proof {
                lemma_find_from(lower@, k@, 0);
            }
            let b = utf8_prefix_len(lower, i);
            assert(b <= u128::MAX - 8) by {
                assert(4 * (i as int) <= 4 * 0xffff_ffff_ffff_ffff);
            }
            match char_index_at_byte(raw, b) {
                Some(j) => Ok(Some(j)),
                None => Err(()),
            }
        },
        None => Ok(None),
    }
}

proof fn lemma_char_at_byte_bound(s: Seq<char>, b: int, from: int, at: int)
    ensures
        char_at_byte_from(s, b, from, at) matches Some(j) ==> from <= j <= s.len(),
    decreases s.len() - from,
{
    if !(from < 0 || from > s.len() || at > b) && at != b && from != s.len() {
        lemma_char_at_byte_bound(s, b, from + 1, at + crate::text::char_utf8_len(s[from]));
    }
}

/// The trimmed rest of the raw line starting at character `j`.
fn line_from_exec(raw: &[char], j: usize) -> (r: Vec<char>)
    requires
        j <= raw@.len(),
    ensures
        r@ == line_from(raw@, j as nat),
{
    let e = match find_char_from_exec(raw, '\n', j) {
        Some(e) => {
            proof {
                lemma_find_char_from(raw@, '\n', j as nat);
            }
            e
        },
        None => raw.len(),
    };
    let seg = slice_chars(raw, j, e);
    trim_exec(&seg)
}

/// Whether `x` is one of `v`.
fn contains_chars(v: &Vec<Vec<char>>, x: &Vec<char>) -> (r: bool)
    ensures
        r == cviews(v@).contains(x@),
{
    let mut i: usize = 0;
    while i < v.len()
        invariant
            i <= v@.len(),
            forall|k: int| 0 <= k < i ==> v@[k]@ != x@,
        decreases v@.len() - i,
    {
        if crate::text::chars_eq(&v[i], x) {
            assert(cviews(v@)[i as int] == x@);
            return true;
        }
        i += 1;
    }
    assert(!cviews(v@).contains(x@)) by {
        if cviews(v@).contains(x@) {
            let k = choose|k: int| 0 <= k < cviews(v@).len() && cviews(v@)[k] == x@;
            assert(v@[k]@ == x@);
        }
    }
    false
}

/// The WHOIS summary, or `None` when some key's offset in the lower-cased
/// text does not fall on a character boundary of the raw text.
fn summarize_core(raw: &str) -> (r: Option<String>)
    ensures
        r is Some <==> whois_offsets_valid(raw@),
        r matches Some(s) ==> s@ == spec_summarize_whois(raw@),
{
    let keys: [&str; 16] = [
        "domain name", "registry domain id", "registrar", "registrar url",
        "creation date", "registry expiry date", "updated date", "registrant name",
        "registrant organization", "registrant email", "admin email", "tech email",
        "name server", "dnssec", "status", "registrar iana id",
    ];
    assert(keys@.map_values(|k: &str| k@) =~= whois_keys());
    let rc = chars_of(raw);
    let lower = crate::text::lowercase(raw);
    let lc = chars_of(lower.as_str());
    let ghost l = spec_lowercase(raw@);
    let mut lines: Vec<Vec<char>> = Vec::new();
    let mut i: usize = 0;
    while i < 16
        invariant
            i <= 16,
            rc@ == raw@,
            lc@ == l,
            l == spec_lowercase(raw@),
            keys@.map_values(|k: &str| k@) == whois_keys(),
            cviews(lines@) == whois_lines(raw@, l, i as int),
            forall|k: int| 0 <= k < i ==> key_start(raw@, l, #[trigger] whois_keys()[k]) is Ok,
        decreases 16 - i,
    {
        let kc = chars_of(keys[i]);
        assert(keys@.map_values(|k: &str| k@)[i as int] == keys@[i as int]@);
        match key_start_exec(&rc, &lc, &kc) {
            Ok(Some(j)) => {
                proof {
                    lemma_char_at_byte_bound(raw@, crate::text::utf8_len(l.take(find(l, kc@)->0 as int)) as int, 0, 0);
                }
                let line = line_from_exec(&rc, j);
                if line.len() > 0 && !contains_chars(&lines, &line) {
                    let ghost before = lines@;
                    lines.push(line);
                    assert(cviews(lines@) =~= cviews(before).push(line@));
                }
            },
            Ok(None) => {},
            Err(_) => {
                return None;
            },
        }
        i += 1;
    }
    if lines.len() == 0 {
        let all = crate::text::lines_exec(&rc);
        let n = if all.len() < 15 { all.len() } else { 15 };
        let mut head: Vec<Vec<char>> = Vec::new();
        let mut k: usize = 0;
        while k < n
            invariant
                k <= n <= all@.len(),
                cviews(head@) == cviews(all@).take(k as int),
            decreases n - k,
        {
            let c = slice_chars(&all[k], 0, all[k].len());
            assert(c@ =~= all@[k as int]@);
            let ghost before = head@;
            head.push(c);
            assert(cviews(head@) =~= cviews(before).push(c@));
            assert(cviews(all@).take(k + 1) =~= cviews(all@).take(k as int).push(all@[k as int]@));
            k += 1;
        }
        assert(cviews(all@) == crate::text::spec_lines(raw@));
        let joined = crate::text::join_exec(&head, &chars_of("\n"));
        let m = if joined.len() < 500 { joined.len() } else { 500 };
        let t = slice_chars(&joined, 0, m);
        assert(joined@.subrange(0, m as int) == joined@.take(m as int));
        Some(string_of(&t))
    } else {
        let joined = crate::text::join_exec(&lines, &chars_of("\n"));
        assert(cviews(lines@) == lines@.map_values(|p: Vec<char>| p@));
        Some(string_of(&joined))
    }
}

/// Summarises WHOIS output: the line of each interesting field (registrar,
/// dates, registrant, name servers, status and so on) in a fixed order, each
/// once, joined by newlines; when no field is found, the first 500 characters
/// of the first 15 lines.
pub fn summarize_whois(raw: &str) -> (r: String)
    requires
        whois_offsets_valid(raw@),
    ensures
        r@ == spec_summarize_whois(raw@),
{
    match summarize_core(raw) {
        Some(s) => s,
        None => {
            assert(false);
            String::new()
        },
    }
}

/// Summarises WHOIS output as [`summarize_whois`] does when the field offsets
/// found in the lower-cased text fall on character boundaries of the raw
/// text; `None` otherwise (where lower-casing changed the byte length of
/// some character before a field, so that the raw text cannot be cut there).
pub fn try_summarize_whois(raw: &str) -> (r: Option<String>)
    ensures
        r is Some <==> whois_offsets_valid(raw@),
        r matches Some(s) ==> s@ == spec_summarize_whois(raw@),
{
    if summarize_core(raw).is_some() {
        Some(summarize_whois(raw))
    } else {
        None
    }
}

// ---------------------------------------------------------------------------
// DNS records
// ---------------------------------------------------------------------------

/// The kind of record a `dig +short` listing holds.
#[derive(Clone, Copy, PartialEq, Eq, Debug)]
pub enum RecordKind {
    Mx,
    Txt,
    Ns,
}

/// The record a line of `dig +short` output stands for: trimmed, and for
/// TXT records without surrounding quotes, for NS records without trailing
/// dots.
pub open spec fn record_value(line: Seq<char>, kind: RecordKind) -> Seq<char> {
    match kind {
        RecordKind::Mx => trim(line),
        RecordKind::Txt => crate::text::trim_end_class(
            crate::text::trim_start_class(trim(line), Some(seq!['"'])),
            Some(seq!['"']),
        ),
        RecordKind::Ns => crate::text::trim_end_class(trim(line), Some(seq!['.'])),
    }
}

/// The non-empty records of the given lines, in order.
pub open spec fn record_values(lines: Seq<Seq<char>>, kind: RecordKind) -> Seq<Seq<char>>
    decreases lines.len(),
{
    if lines.len() == 0 {
        Seq::empty()
    } else {
        let v = record_value(lines.last(), kind);
        record_values(lines.drop_last(), kind) + (if v.len() > 0 {
            seq![v]
        } else {
            Seq::empty()
        })
    }
}

fn record_value_exec(line: &[char], kind: RecordKind) -> (r: Vec<char>)
    ensures
        r@ == record_value(line@, kind),
{
    let t = trim_exec(line);
    match kind {
        RecordKind::Mx => t,
        RecordKind::Txt => {
            let q = ['"'];
            assert(q@ == seq!['"']);
            let a = crate::text::trim_start_class_exec(&t, Some(&q));
            crate::text::trim_end_class_exec(&a, Some(&q))
        },
        RecordKind::Ns => {
            let d = ['.'];
            assert(d@ == seq!['.']);
            crate::text::trim_end_class_exec(&t, Some(&d))
        },
    }
}

/// The records listed in `dig +short` output: one per non-empty line, in
/// order (see [`record_value`]).
pub fn parse_dig_output(stdout: &str, kind: RecordKind) -> (r: Vec<String>)
    ensures
        views(r@) == record_values(crate::text::spec_lines(stdout@), kind),
{
    let cs = chars_of(stdout);
    let lines = crate::text::lines_exec(&cs);
    let ghost lv = cviews(lines@);
    let mut r: Vec<String> = Vec::new();
    let mut i: usize = 0;
    while i < lines.len()
        invariant
            i <= lines@.len(),
            lv == cviews(lines@),
            views(r@) == record_values(lv.take(i as int), kind),
        decreases lines@.len() - i,
    {
        assert(lv.take(i + 1).drop_last() == lv.take(i as int));
        let v = record_value_exec(&lines[i], kind);
        if v.len() > 0 {
            let s = string_of(&v);
            proof {
                crate::text::lemma_views_push(r@, s);
            }
            r.push(s);
        } else {
            assert(views(r@) =~= views(r@) + Seq::<Seq<char>>::empty());
        }
        i += 1;
    }
    assert(lv.take(lines@.len() as int) == lv);
    r
}

/// `xs` appended to `base`, each string only when not already present.
pub open spec fn extend_absent(base: Seq<Seq<char>>, xs: Seq<Seq<char>>) -> Seq<Seq<char>>
    decreases xs.len(),
{
    if xs.len() == 0 {
        base
    } else {
        let b = extend_absent(base, xs.drop_last());
        if b.contains(xs.last()) {
            b
        } else {
            b.push(xs.last())
        }
    }
}

/// The addresses of `ips` that are (`v6`) or are not IPv6 addresses, as told
/// by a colon in their text.
pub open spec fn addresses_of_family(ips: Seq<Seq<char>>, v6: bool) -> Seq<Seq<char>>
    decreases ips.len(),
{
    if ips.len() == 0 {
        Seq::empty()
    } else {
        addresses_of_family(ips.drop_last(), v6) + (if ips.last().contains(':') == v6 {
            seq![ips.last()]
        } else {
            Seq::empty()
        })
    }
}

fn push_absent(v: &mut Vec<String>, x: String)
    ensures
        views(final(v)@) == (if views(old(v)@).contains(x@) {
            views(old(v)@)
        } else {
            views(old(v)@).push(x@)
        }),
{
    let mut i: usize = 0;
    while i < v.len()
        invariant
            i <= v@.len(),
            *v == *old(v),
            forall|k: int| 0 <= k < i ==> v@[k]@ != x@,
        decreases v@.len() - i,
    {
        if v[i] == x {
            assert(views(v@)[i as int] == x@);
            return;
        }
        i += 1;
    }
    assert(!views(v@).contains(x@)) by {
        if views(v@).contains(x@) {
            let k = choose|k: int| 0 <= k < views(v@).len() && views(v@)[k] == x@;
            assert(v@[k]@ == x@);
        }
    }
    proof {
        crate::text::lemma_views_push(v@, x);
    }
    v.push(x);
}

/// Records the resolved addresses of a domain: the distinct addresses,
/// those with a colon added to the AAAA records and the others to the A
/// records, each only when not already recorded. Nothing else changes.
pub fn add_address_records(info: &mut DomainInfo, ips: &Vec<String>)
    ensures
        views(final(info).a_records@) == extend_absent(
            views(old(info).a_records@),
            addresses_of_family(crate::text::distinct(views(ips@)), false),
        ),
        views(final(info).aaaa_records@) == extend_absent(
            views(old(info).aaaa_records@),
            addresses_of_family(crate::text::distinct(views(ips@)), true),
        ),
        final(info).domain == old(info).domain,
        final(info).resolves == old(info).resolves,
        final(info).mx_records == old(info).mx_records,
        final(info).txt_records == old(info).txt_records,
        final(info).ns_records == old(info).ns_records,
        final(info).whois == old(info).whois,
        final(info).homepage_title == old(info).homepage_title,
        final(info).homepage_description == old(info).homepage_description,
        final(info).error == old(info).error,
        final(info).pages == old(info).pages,
{
    let mut recs: Vec<String> = Vec::new();
    let mut i: usize = 0;
    while i < ips.len()
        invariant
            i <= ips@.len(),
            views(recs@) == crate::text::distinct_without(views(ips@).take(i as int), None),
        decreases ips@.len() - i,
    {
        let c = ips[i].clone();
        crate::text::push_distinct(&mut recs, c, None, Ghost(views(ips@).take(i as int)));
        assert(views(ips@).take(i + 1) == views(ips@).take(i as int).push(c@));
        i += 1;
    }
    assert(views(ips@).take(ips@.len() as int) == views(ips@));
    let ghost rv = views(recs@);
    let ghost a0 = views(info.a_records@);
    let ghost aaaa0 = views(info.aaaa_records@);
    let mut k: usize = 0;
    while k < recs.len()
        invariant
            k <= recs@.len(),
            rv == views(recs@),
            views(info.a_records@) == extend_absent(a0, addresses_of_family(rv.take(k as int), false)),
            views(info.aaaa_records@) == extend_absent(aaaa0, addresses_of_family(rv.take(k as int), true)),
            info.domain == old(info).domain,
            info.resolves == old(info).resolves,
            info.mx_records == old(info).mx_records,
            info.txt_records == old(info).txt_records,
            info.ns_records == old(info).ns_records,
            info.whois == old(info).whois,
            info.homepage_title == old(info).homepage_title,
            info.homepage_description == old(info).homepage_description,
            info.error == old(info).error,
            info.pages == old(info).pages,
        decreases recs@.len() - k,
    {
        assert(rv.take(k + 1).drop_last() == rv.take(k as int));
        let ip = recs[k].clone();
        let ic = chars_of(ip.as_str());
        let colon = find_char_from_exec(&ic, ':', 0);
        proof {
            lemma_find_char_from(ic@, ':', 0);
            if colon is Some {
                assert(ic@.contains(':'));
            } else {
                assert(!ic@.contains(':'));
            }
        }
        if colon.is_some() {
            assert(addresses_of_family(rv.take(k + 1), true) == addresses_of_family(rv.take(k as int), true).push(ip@));
            assert(addresses_of_family(rv.take(k + 1), false) =~= addresses_of_family(rv.take(k as int), false) + Seq::<Seq<char>>::empty());
            assert(addresses_of_family(rv.take(k as int), true).push(ip@).drop_last() == addresses_of_family(rv.take(k as int), true));
            push_absent(&mut info.aaaa_records, ip);
        } else {
            assert(addresses_of_family(rv.take(k + 1), false) == addresses_of_family(rv.take(k as int), false).push(ip@));
            assert(addresses_of_family(rv.take(k + 1), true) =~= addresses_of_family(rv.take(k as int), true) + Seq::<Seq<char>>::empty());
            assert(addresses_of_family(rv.take(k as int), false).push(ip@).drop_last() == addresses_of_family(rv.take(k as int), false));
            push_absent(&mut info.a_records, ip);
        }
        k += 1;
    }
    assert(rv.take(recs@.len() as int) == rv);
}

// ---------------------------------------------------------------------------
// Contact details and links on pages
// ---------------------------------------------------------------------------

/// The pattern of an e-mail address on a page.
pub open spec fn page_email_pattern() -> Seq<char> {
    "[a-zA-Z0-9._%+-]+@[a-zA-Z0-9.-]+\\.[a-zA-Z]{2,}"@
}

/// The pattern of a phone number on a page.
pub open spec fn page_phone_pattern() -> Seq<char> {
    "(?:\\+?\\d{1,3}[\\s.-]?)?\\(?\\d{2,4}\\)?[\\s.-]?\\d{3,4}[\\s.-]?\\d{3,4}(?:\\s*(?:ext|x|#)\\s*\\d{1,5})?"@
}

/// The pattern of a link on a page.
pub open spec fn href_pattern() -> Seq<char> {
    "href=[\"']([^\"']+)[\"']"@
}

/// The matches of `pattern` in `text`; none when the pattern does not
/// compile.
pub open spec fn found(pattern: Seq<char>, text: Seq<char>) -> Seq<Seq<char>> {
    match crate::pattern::spec_regex_matches(pattern, text) {
        Some(ms) => ms,
        None => Seq::empty(),
    }
}

/// The e-mail addresses on a page, lower-cased, each once, in order of first
/// appearance.
pub open spec fn spec_page_emails(html: Seq<char>) -> Seq<Seq<char>> {
    crate::text::distinct(found(page_email_pattern(), html).map_values(|m: Seq<char>| spec_lowercase(m)))
}

/// The phone numbers kept from the matches `ms`: trimmed, with 7 to 15
/// digits, not yet kept, and without ASCII letters unless they start with
/// `+`.
pub open spec fn kept_phones(ms: Seq<Seq<char>>) -> Seq<Seq<char>>
    decreases ms.len(),
{
    if ms.len() == 0 {
        Seq::empty()
    } else {
        let prev = kept_phones(ms.drop_last());
        let raw = trim(ms.last());
        let d = crate::text::digit_count(raw);
        if 7 <= d && d <= 15 && !prev.contains(raw) && (crate::text::letter_count(raw) == 0
            || crate::text::starts_with(raw, seq!['+'])) {
            prev.push(raw)
        } else {
            prev
        }
    }
}

/// The phone numbers on a page.
pub open spec fn spec_page_phones(html: Seq<char>) -> Seq<Seq<char>> {
    kept_phones(found(page_phone_pattern(), html))
}

/// The domains of the social platforms recognised in links.
pub open spec fn platform_domains() -> Seq<Seq<char>> {
    seq![
        "github.com"@, "linkedin.com"@, "twitter.com"@, "x.com"@, "youtube.com"@,
        "facebook.com"@, "instagram.com"@, "tiktok.com"@, "medium.com"@, "dev.to"@,
        "hashnode.com"@, "reddit.com"@, "stackoverflow.com"@, "dribbble.com"@, "behance.net"@,
        "twitch.tv"@, "discord.com"@, "telegram.org"@, "whatsapp.com"@, "patreon.com"@,
        "producthunt.com"@, "news.ycombinator.com"@, "keybase.io"@,
    ]
}

/// The names of the social platforms, in the order of their domains.
pub open spec fn platform_names() -> Seq<Seq<char>> {
    seq![
        "GitHub"@, "LinkedIn"@, "Twitter"@, "X"@, "YouTube"@, "Facebook"@, "Instagram"@,
        "TikTok"@, "Medium"@, "Dev.to"@, "Hashnode"@, "Reddit"@, "Stack Overflow"@,
        "Dribbble"@, "Behance"@, "Twitch"@, "Discord"@, "Telegram"@, "WhatsApp"@, "Patreon"@,
        "Product Hunt"@, "Hacker News"@, "Keybase"@,
    ]
}

/// The URL inside a matched `href` attribute: without leading `href="` and
/// `href='` and trailing quotes.
pub open spec fn href_url(m: Seq<char>) -> Seq<char> {
    crate::text::trim_end_class(
        crate::text::trim_end_class(
            crate::text::strip_prefixes(crate::text::strip_prefixes(m, "href=\""@), "href='"@),
            Some(seq!['"']),
        ),
        Some(seq!['\'']),
    )
}

/// The entries `"<platform>: <url>"` for the first `n` platforms whose domain
/// occurs in `url`.
pub open spec fn platform_entries(url: Seq<char>, n: int) -> Seq<Seq<char>>
    decreases n,
{
    if n <= 0 {
        Seq::empty()
    } else {
        let domain = platform_domains()[n - 1];
        let name = platform_names()[n - 1];
        platform_entries(url, n - 1) + (if crate::text::contains_seq(url, domain) {
            seq![name + ": "@ + url]
        } else {
            Seq::empty()
        })
    }
}

/// The entries of a matched `href`: none unless its URL is absolute (http or
/// https).
pub open spec fn href_entries(m: Seq<char>) -> Seq<Seq<char>> {
    let url = href_url(m);
    if crate::text::starts_with(url, "http://"@) || crate::text::starts_with(url, "https://"@) {
        platform_entries(url, 23)
    } else {
        Seq::empty()
    }
}

/// The entries of the matched `href`s, in order.
pub open spec fn all_href_entries(ms: Seq<Seq<char>>) -> Seq<Seq<char>>
    decreases ms.len(),
{
    if ms.len() == 0 {
        Seq::empty()
    } else {
        all_href_entries(ms.drop_last()) + href_entries(ms.last())
    }
}

/// The social profiles linked from a page, as `"<platform>: <url>"`, each
/// once, in order of first appearance.
pub open spec fn spec_social_links(html: Seq<char>) -> Seq<Seq<char>> {
    crate::text::distinct(all_href_entries(found(href_pattern(), html)))
}

fn found_exec(pattern: &str, text: &str) -> (r: Vec<String>)
    ensures
        views(r@) == found(pattern@, text@),
{
    match crate::pattern::regex_matches(pattern, text) {
        Some(v) => v,
        None => Vec::new(),
    }
}

/// The e-mail addresses on a page, lower-cased, each once.
pub fn extract_emails(html: &str) -> (r: Vec<String>)
    ensures
        views(r@) == spec_page_emails(html@),
{
    let ms = found_exec("[a-zA-Z0-9._%+-]+@[a-zA-Z0-9.-]+\\.[a-zA-Z]{2,}", html);
    let ghost lv = views(ms@).map_values(|m: Seq<char>| spec_lowercase(m));
    let mut r: Vec<String> = Vec::new();
    let mut i: usize = 0;
    while i < ms.len()
        invariant
            i <= ms@.len(),
            lv == views(ms@).map_values(|m: Seq<char>| spec_lowercase(m)),
            views(r@) == crate::text::distinct_without(lv.take(i as int), None),
        decreases ms@.len() - i,
    {
        let e = crate::text::lowercase(ms[i].as_str());
        crate::text::push_distinct(&mut r, e, None, Ghost(lv.take(i as int)));
        assert(lv.take(i + 1) == lv.take(i as int).push(e@));
        i += 1;
    }
    assert(lv.take(ms@.len() as int) == lv);
    r
}

fn letter_count_exec(s: &[char]) -> (n: usize)
    ensures
        n == crate::text::letter_count(s@),
{
    let mut n: usize = 0;
    let mut i: usize = 0;
    while i < s.len()
        invariant
            i <= s@.len(),
            n == crate::text::letter_count(s@.take(i as int)),
            n <= i,
        decreases s@.len() - i,
    {
        assert(s@.take(i + 1).drop_last() == s@.take(i as int));
        let c = s[i];
        if ('a' <= c && c <= 'z') || ('A' <= c && c <= 'Z') {
            n += 1;
        }
        i += 1;
    }
    assert(s@.take(s@.len() as int) == s@);
    n
}

fn digit_count_exec(s: &[char]) -> (n: usize)
    ensures
        n == crate::text::digit_count(s@),
{
    let mut n: usize = 0;
    let mut i: usize = 0;
    while i < s.len()
        invariant
            i <= s@.len(),
            n == crate::text::digit_count(s@.take(i as int)),
            n <= i,
        decreases s@.len() - i,
    {
        assert(s@.take(i + 1).drop_last() == s@.take(i as int));
        if '0' <= s[i] && s[i] <= '9' {
            n += 1;
        }
        i += 1;
    }
    assert(s@.take(s@.len() as int) == s@);
    n
}

/// The phone numbers on a page: trimmed matches with 7 to 15 digits, each
/// once, without ASCII letters unless they start with `+`.
pub fn extract_phones(html: &str) -> (r: Vec<String>)
    ensures
        views(r@) == spec_page_phones(html@),
{
    let ms = found_exec(
        "(?:\\+?\\d{1,3}[\\s.-]?)?\\(?\\d{2,4}\\)?[\\s.-]?\\d{3,4}[\\s.-]?\\d{3,4}(?:\\s*(?:ext|x|#)\\s*\\d{1,5})?",
        html,
    );
    let plus = ['+'];
    assert(plus@ == seq!['+']);
    let mut r: Vec<String> = Vec::new();
    let mut i: usize = 0;
    while i < ms.len()
        invariant
            i <= ms@.len(),
            plus@ == seq!['+'],
            views(r@) == kept_phones(views(ms@).take(i as int)),
        decreases ms@.len() - i,
    {
        assert(views(ms@).take(i + 1).drop_last() == views(ms@).take(i as int));
        let raw = trim_exec(&chars_of(ms[i].as_str()));
        let d = digit_count_exec(&raw);
        if 7 <= d && d <= 15 {
            let s = string_of(&raw);
            if !crate::identity::contains_string_pub(&r, &s) {
                if letter_count_exec(&raw) == 0 || crate::text::starts_with_exec(&raw, &plus) {
                    proof {
                        crate::text::lemma_views_push(r@, s);
                    }
                    r.push(s);
                }
            }
        }
        i += 1;
    }
    assert(views(ms@).take(ms@.len() as int) == views(ms@));
    r
}

fn href_url_exec(m: &[char]) -> (r: Vec<char>)
    ensures
        r@ == href_url(m@),
{
    let a = crate::text::strip_prefixes_exec(m, &chars_of("href=\""));
    let b = crate::text::strip_prefixes_exec(&a, &chars_of("href='"));
    let dq = ['"'];
    let sq = ['\''];
    assert(dq@ == seq!['"']);
    assert(sq@ == seq!['\'']);
    let c = crate::text::trim_end_class_exec(&b, Some(&dq));
    crate::text::trim_end_class_exec(&c, Some(&sq))
}

/// The social profiles linked from a page, as `"<platform>: <url>"`, each
/// once: every absolute link is checked against the known platform domains.
pub fn extract_social_links(html: &str) -> (r: Vec<String>)
    ensures
        views(r@) == spec_social_links(html@),
{
    let domains: [&str; 23] = [
        "github.com", "linkedin.com", "twitter.com", "x.com", "youtube.com",
        "facebook.com", "instagram.com", "tiktok.com", "medium.com", "dev.to",
        "hashnode.com", "reddit.com", "stackoverflow.com", "dribbble.com", "behance.net",
        "twitch.tv", "discord.com", "telegram.org", "whatsapp.com", "patreon.com",
        "producthunt.com", "news.ycombinator.com", "keybase.io",
    ];
    let names: [&str; 23] = [
        "GitHub", "LinkedIn", "Twitter", "X", "YouTube", "Facebook", "Instagram",
        "TikTok", "Medium", "Dev.to", "Hashnode", "Reddit", "Stack Overflow",
        "Dribbble", "Behance", "Twitch", "Discord", "Telegram", "WhatsApp", "Patreon",
        "Product Hunt", "Hacker News", "Keybase",
    ];
    assert(domains@.map_values(|d: &str| d@) =~= platform_domains());
    assert(names@.map_values(|d: &str| d@) =~= platform_names());
    let http = chars_of("http://");
    let https = chars_of("https://");
    let ms = found_exec("href=[\"']([^\"']+)[\"']", html);
    let ghost mv = views(ms@);
    let mut r: Vec<String> = Vec::new();
    let mut i: usize = 0;
    while i < ms.len()
        invariant
            i <= ms@.len(),
            mv == views(ms@),
            http@ == "http://"@,
            https@ == "https://"@,
            domains@.map_values(|d: &str| d@) == platform_domains(),
            names@.map_values(|d: &str| d@) == platform_names(),
            views(r@) == crate::text::distinct_without(all_href_entries(mv.take(i as int)), None),
        decreases ms@.len() - i,
    {
        assert(mv.take(i + 1).drop_last() == mv.take(i as int));
        let ghost pre = all_href_entries(mv.take(i as int));
        let url = href_url_exec(&chars_of(ms[i].as_str()));
        if crate::text::starts_with_exec(&url, &http) || crate::text::starts_with_exec(&url, &https) {
            let url_s = string_of(&url);
            let mut k: usize = 0;
            while k < 23
                invariant
                    k <= 23,
                    url_s@ == url@,
                    domains@.map_values(|d: &str| d@) == platform_domains(),
                    names@.map_values(|d: &str| d@) == platform_names(),
                    views(r@) == crate::text::distinct_without(pre + platform_entries(url@, k as int), None),
                decreases 23 - k,
            {
                assert(domains@.map_values(|d: &str| d@)[k as int] == domains@[k as int]@);
                assert(names@.map_values(|d: &str| d@)[k as int] == names@[k as int]@);
                let dc = chars_of(domains[k]);
                if crate::text::contains_exec(&url, &dc) {
                    let mut entry = String::from_str(names[k]);
                    entry.append(": ");
                    entry.append(url_s.as_str());
                    let ghost cands = pre + platform_entries(url@, k as int);
                    crate::text::push_distinct(&mut r, entry, None, Ghost(cands));
                    assert(pre + platform_entries(url@, k + 1) == cands.push(entry@));
                } else {
                    assert(pre + platform_entries(url@, k + 1) =~= pre + platform_entries(url@, k as int));
                }
                k += 1;
            }
            assert(all_href_entries(mv.take(i + 1)) == pre + platform_entries(url@, 23));
        } else {
            assert(all_href_entries(mv.take(i + 1)) =~= pre);
        }
        i += 1;
    }
    assert(mv.take(ms@.len() as int) == mv);
    r
}

// ---------------------------------------------------------------------------
// Text preview
// ---------------------------------------------------------------------------

/// `s` with each element from an `open` tag to the next `close` tag replaced
/// by a space, the first such element first, until none is left.
pub open spec fn cut_elements(s: Seq<char>, open: Seq<char>, close: Seq<char>) -> Seq<char>
    decreases s.len(),
{
    if close.len() < 2 {
        s
    } else {
        match find(s, open) {
            Some(st) => match find_from(s, close, st) {
                Some(e) => {
                    proof {
                        lemma_find_from(s, open, 0);
                        lemma_find_from(s, close, st);
                    }
                    cut_elements(s.take(st as int) + seq![' '] + s.skip((e + close.len()) as int), open, close)
                },
                None => s,
            },
            None => s,
        }
    }
}

/// `s` without script, style, navigation, footer, header and SVG elements.
pub open spec fn strip_elements(s: Seq<char>) -> Seq<char> {
    cut_elements(
        cut_elements(
            cut_elements(
                cut_elements(
                    cut_elements(cut_elements(s, "<script"@, "</script>"@), "<style"@, "</style>"@),
                    "<nav"@,
                    "</nav>"@,
                ),
                "<footer"@,
                "</footer>"@,
            ),
            "<header"@,
            "</header>"@,
        ),
        "<svg"@,
        "</svg>"@,
    )
}

/// `s` with the common HTML entities decoded, `&amp;` first.
pub open spec fn decode_entities(s: Seq<char>) -> Seq<char> {
    crate::text::replace_str(
        crate::text::replace_str(
            crate::text::replace_str(
                crate::text::replace_str(
                    crate::text::replace_str(crate::text::replace_str(s, "&amp;"@, "&"@), "&lt;"@, "<"@),
                    "&gt;"@,
                    ">"@,
                ),
                "&nbsp;"@,
                " "@,
            ),
            "&#39;"@,
            "'"@,
        ),
        "&quot;"@,
        "\""@,
    )
}

/// `c` ends a sentence.
pub open spec fn ends_sentence(c: char) -> bool {
    c == '.' || c == '!' || c == '?'
}

/// The pieces of `s` between sentence ends, as `(finished, in progress)`.
pub open spec fn sentence_state(s: Seq<char>) -> (Seq<Seq<char>>, Seq<char>)
    decreases s.len(),
{
    if s.len() == 0 {
        (Seq::empty(), Seq::empty())
    } else {
        let (done, cur) = sentence_state(s.drop_last());
        if ends_sentence(s.last()) {
            (done.push(cur), Seq::empty())
        } else {
            (done, cur.push(s.last()))
        }
    }
}

/// The pieces of `s` between `.`, `!` and `?`, empty ones included.
pub open spec fn sentences(s: Seq<char>) -> Seq<Seq<char>> {
    sentence_state(s).0.push(sentence_state(s).1)
}

/// Two neighbouring sentences joined by `". "` and trimmed.
pub open spec fn joined_pair(ss: Seq<Seq<char>>, k: int) -> Seq<char> {
    trim(ss[k] + ". "@ + ss[k + 1])
}

/// The joined pair is a substantial passage: more than 60 and fewer than
/// 1000 bytes, and no search box text.
pub open spec fn good_passage(j: Seq<char>) -> bool {
    utf8_len(j) > 60 && utf8_len(j) < 1000 && !crate::text::contains_seq(j, "Search"@)
}

/// The first substantial joined pair of neighbouring sentences from index `k`.
pub open spec fn first_passage(ss: Seq<Seq<char>>, k: int) -> Option<Seq<char>>
    decreases ss.len() - k,
{
    if k < 0 || k + 1 >= ss.len() {
        None
    } else if good_passage(joined_pair(ss, k)) {
        Some(joined_pair(ss, k))
    } else {
        first_passage(ss, k + 1)
    }
}

/// A preview of a page's text: script, style and layout elements removed,
/// tags turned into spaces, entities decoded and whitespace collapsed; none
/// when the text is shorter than 80 bytes; else the first substantial pair
/// of neighbouring sentences, or failing that the first 300 characters (a
/// leading "Search" removed). `None` also when a pattern does not compile or
/// matching meets a runtime error.
pub open spec fn spec_text_preview(html: Seq<char>) -> Option<Seq<char>> {
    match crate::pattern::spec_regex_replace_all("<[^>]*>"@, strip_elements(html), " "@) {
        None => None,
        Some(t1) => match crate::pattern::spec_regex_replace_all("\\s+"@, decode_entities(t1), " "@) {
            None => None,
            Some(t2) => {
                let t = trim(t2);
                if utf8_len(t) < 80 {
                    None
                } else {
                    match first_passage(sentences(t), 0) {
                        Some(p) => Some(p),
                        None => {
                            let rest = crate::text::strip_prefixes(t, "Search"@);
                            Some(rest.take(if rest.len() < 300 { rest.len() as int } else { 300 }))
                        },
                    }
                }
            },
        },
    }
}

fn cut_elements_exec(s: Vec<char>, open: &str, close: &str) -> (r: Vec<char>)
    ensures
        r@ == cut_elements(s@, open@, close@),
{
    let oc = chars_of(open);
    let cc = chars_of(close);
    if cc.len() < 2 {
        return s;
    }
    let mut cur = s;
    loop
        invariant
            oc@ == open@,
            cc@ == close@,
            cc@.len() >= 2,
            cut_elements(s@, open@, close@) == cut_elements(cur@, open@, close@),
        decreases cur@.len(),
    {
        let st = match find_from_exec(&cur, &oc, 0) {
            Some(st) => st,
            None => {
                return cur;
            },
        };
        proof {
            lemma_find_from(cur@, oc@, 0);
        }
        let e = match find_from_exec(&cur, &cc, st) {
            Some(e) => e,
            None => {
                return cur;
            },
        };
        proof {
            lemma_find_from(cur@, cc@, st as nat);
        }
        let cl = cur.len();
        let mut next: Vec<char> = slice_chars(&cur, 0, st);
        next.push(' ');
        let tail = slice_chars(&cur, e + cc.len(), cl);
        let ghost head = next@;
        let mut k: usize = 0;
        while k < tail.len()
            invariant
                k <= tail@.len(),
                next@ == head + tail@.take(k as int),
            decreases tail@.len() - k,
        {
            next.push(tail[k]);
            assert(tail@.take(k + 1) == tail@.take(k as int).push(tail@[k as int]));
            k += 1;
        }
        assert(tail@.take(tail@.len() as int) == tail@);
        assert(next@ =~= cur@.take(st as int) + seq![' '] + cur@.skip(e + cc@.len()));
        cur = next;
    }
}

fn sentences_exec(s: &[char]) -> (r: Vec<Vec<char>>)
    ensures
        cviews(r@) == sentences(s@),
{
    let mut done: Vec<Vec<char>> = Vec::new();
    let mut cur: Vec<char> = Vec::new();
    let mut i: usize = 0;
    while i < s.len()
        invariant
            i <= s@.len(),
            cviews(done@) == sentence_state(s@.take(i as int)).0,
            cur@ == sentence_state(s@.take(i as int)).1,
        decreases s@.len() - i,
    {
        assert(s@.take(i + 1).drop_last() == s@.take(i as int));
        let c = s[i];
        if c == '.' || c == '!' || c == '?' {
            let ghost before = done@;
            done.push(cur);
            assert(cviews(done@) =~= cviews(before).push(cur@));
            cur = Vec::new();
        } else {
            cur.push(c);
        }
        i += 1;
    }
    assert(s@.take(s@.len() as int) == s@);
    let ghost before = done@;
    done.push(cur);
    assert(cviews(done@) =~= cviews(before).push(cur@));
    done
}

fn concat_chars(a: &[char], b: &[char]) -> (r: Vec<char>)
    ensures
        r@ == a@ + b@,
{
    let mut r = slice_chars(a, 0, a.len());
    assert(r@ =~= a@);
    let mut k: usize = 0;
    while k < b.len()
        invariant
            k <= b@.len(),
            r@ == a@ + b@.take(k as int),
        decreases b@.len() - k,
    {
        r.push(b[k]);
        assert(b@.take(k + 1) == b@.take(k as int).push(b@[k as int]));
        k += 1;
    }
    assert(b@.take(b@.len() as int) == b@);
    r
}

/// A preview of a page's text (see [`spec_text_preview`]).
pub fn extract_text_preview(html: &str) -> (r: Option<String>)
    ensures
        opt_view(r) == spec_text_preview(html@),
{
    let mut cleaned = chars_of(html);
    cleaned = cut_elements_exec(cleaned, "<script", "</script>");
    cleaned = cut_elements_exec(cleaned, "<style", "</style>");
    cleaned = cut_elements_exec(cleaned, "<nav", "</nav>");
    cleaned = cut_elements_exec(cleaned, "<footer", "</footer>");
    cleaned = cut_elements_exec(cleaned, "<header", "</header>");
    cleaned = cut_elements_exec(cleaned, "<svg", "</svg>");
    let cs = string_of(&cleaned);
    let t1 = match crate::pattern::regex_replace_all("<[^>]*>", cs.as_str(), " ") {
        Some(t) => t,
        None => {
            return None;
        },
    };
    let mut t = chars_of(t1.as_str());
    t = crate::text::replace_str_exec(&t, &chars_of("&amp;"), &chars_of("&"));
    t = crate::text::replace_str_exec(&t, &chars_of("&lt;"), &chars_of("<"));
    t = crate::text::replace_str_exec(&t, &chars_of("&gt;"), &chars_of(">"));
    t = crate::text::replace_str_exec(&t, &chars_of("&nbsp;"), &chars_of(" "));
    t = crate::text::replace_str_exec(&t, &chars_of("&#39;"), &chars_of("'"));
    t = crate::text::replace_str_exec(&t, &chars_of("&quot;"), &chars_of("\""));
    let ts = string_of(&t);
    let t2 = match crate::pattern::regex_replace_all("\\s+", ts.as_str(), " ") {
        Some(x) => x,
        None => {
            return None;
        },
    };
    let text = trim_exec(&chars_of(t2.as_str()));
    if crate::text::utf8_len_below(&text, 80) {
        return None;
    }
    let ss = sentences_exec(&text);
    let search = chars_of("Search");
    let sep = chars_of(". ");
    let ghost rest_spec = crate::text::strip_prefixes(text@, "Search"@);
    let ghost fallback = rest_spec.take(if rest_spec.len() < 300 { rest_spec.len() as int } else { 300 });
    assert(spec_text_preview(html@) == match first_passage(cviews(ss@), 0) {
        Some(p) => Some(p),
        None => Some(fallback),
    });
    let mut k: usize = 0;
    while k < ss.len() && k + 1 < ss.len()
        invariant
            spec_text_preview(html@) == match first_passage(cviews(ss@), 0) {
                Some(p) => Some(p),
                None => Some(fallback),
            },
            search@ == "Search"@,
            sep@ == ". "@,
            first_passage(cviews(ss@), 0) == first_passage(cviews(ss@), k as int),
        decreases ss@.len() - k,
    {
        let a = concat_chars(&ss[k], &sep);
        let b = concat_chars(&a, &ss[k + 1]);
        let j = trim_exec(&b);
        assert(j@ == joined_pair(cviews(ss@), k as int));
        if crate::text::utf8_len_exceeds(&j, 60) && crate::text::utf8_len_below(&j, 1000)
            && !crate::text::contains_exec(&j, &search) {
            return Some(string_of(&j));
        }
        k += 1;
    }
    let rest = crate::text::strip_prefixes_exec(&text, &search);
    let n = if rest.len() < 300 { rest.len() } else { 300 };
    let p = slice_chars(&rest, 0, n);
    assert(rest@.subrange(0, n as int) == rest@.take(n as int));
    Some(string_of(&p))
}

/// What is read from one page of a domain: nothing when the body is shorter
/// than 50 bytes; else the page's title and description, e-mail addresses,
/// phone numbers, social links and text preview.
pub fn build_domain_page(path: &str, body: &str) -> (r: Option<DomainPage>)
    ensures
        utf8_len(body@) < 50 <==> r is None,
        r matches Some(p) ==> {
            &&& p.path@ == path@
            &&& opt_view(p.title) == page_title(body@)
            &&& opt_view(p.description) == page_description(body@)
            &&& views(p.emails@) == spec_page_emails(body@)
            &&& views(p.phones@) == spec_page_phones(body@)
            &&& views(p.social_links@) == spec_social_links(body@)
            &&& opt_view(p.text_preview) == spec_text_preview(body@)
        },
{
    if crate::text::utf8_len_below(&chars_of(body), 50) {
        return None;
    }
    let mut page = DomainPage {
        path: String::from_str(path),
        title: None,
        description: None,
        emails: Vec::new(),
        phones: Vec::new(),
        social_links: Vec::new(),
        text_preview: None,
    };
    extract_page_metadata(body, &mut page.title, &mut page.description);
    page.emails = extract_emails(body);
    page.phones = extract_phones(body);
    page.social_links = extract_social_links(body);
    page.text_preview = extract_text_preview(body);
    Some(page)
}


// ---------------------------------------------------------------------------
// Where a domain is looked at
// ---------------------------------------------------------------------------

/// The address whose lookup tells whether a domain resolves: the domain at
/// port 80.
pub fn lookup_target(domain: &str) -> (r: String)
    ensures
        r@ == domain@ + ":80"@,
{
    let mut r = String::from_str(domain);
    r.append(":80");
    r
}

/// The address of a domain's homepage.
pub fn homepage_url(domain: &str) -> (r: String)
    ensures
        r@ == "https://"@ + domain@,
{
    let mut r = String::from_str("https://");
    r.append(domain);
    r
}

/// The paths tried on a domain, in order.
pub open spec fn common_paths() -> Seq<Seq<char>> {
    seq![
        "/about"@, "/contact"@, "/resume"@, "/cv"@, "/blog"@,
        "/projects"@, "/portfolio"@, "/about-me"@, "/bio"@, "/links"@,
    ]
}

/// The pages tried on a domain: each common path with its address.
pub fn page_targets(domain: &str) -> (r: Vec<(String, String)>)
    ensures
        r@.len() == common_paths().len(),
        forall|i: int| 0 <= i < r@.len() ==> (#[trigger] r@[i]).0@ == common_paths()[i] && r@[i].1@
            == "https://"@ + domain@ + common_paths()[i],
{
    let paths: [&str; 10] = [
        "/about", "/contact", "/resume", "/cv", "/blog",
        "/projects", "/portfolio", "/about-me", "/bio", "/links",
    ];
    assert(paths@.map_values(|t: &str| t@) =~= common_paths());
    let base = homepage_url(domain);
    let mut r: Vec<(String, String)> = Vec::new();
    let mut i: usize = 0;
    while i < 10
        invariant
            i <= 10,
            paths@.map_values(|t: &str| t@) == common_paths(),
            base@ == "https://"@ + domain@,
            r@.len() == i,
            forall|k: int| 0 <= k < i ==> (#[trigger] r@[k]).0@ == common_paths()[k] && r@[k].1@
                == "https://"@ + domain@ + common_paths()[k],
        decreases 10 - i,
    {
        assert(paths@.map_values(|t: &str| t@)[i as int] == paths@[i as int]@);
        let mut url = base.clone();
        url.append(paths[i]);
        r.push((String::from_str(paths[i]), url));
        i += 1;
    }
    r
}

/// Records what the homepage showed: its title and description when it was
/// fetched (`Ok` with its body), else the failure, as
/// `Failed to fetch homepage: <message>`.
pub fn record_homepage(info: &mut DomainInfo, fetched: Result<String, String>)
    ensures
        match fetched {
            Ok(body) => {
                &&& opt_view(final(info).homepage_title) == match page_title(body@) {
                    Some(t) => Some(t),
                    None => opt_view(old(info).homepage_title),
                }
                &&& opt_view(final(info).homepage_description) == match page_description(body@) {
                    Some(d) => Some(d),
                    None => opt_view(old(info).homepage_description),
                }
                &&& final(info).error == old(info).error
            },
            Err(message) => {
                &&& opt_view(final(info).error) == Some("Failed to fetch homepage: "@ + message@)
                &&& final(info).homepage_title == old(info).homepage_title
                &&& final(info).homepage_description == old(info).homepage_description
            },
        },
        final(info).domain == old(info).domain,
        final(info).resolves == old(info).resolves,
        final(info).a_records == old(info).a_records,
        final(info).aaaa_records == old(info).aaaa_records,
        final(info).mx_records == old(info).mx_records,
        final(info).txt_records == old(info).txt_records,
        final(info).ns_records == old(info).ns_records,
        final(info).whois == old(info).whois,
        final(info).pages == old(info).pages,
{
    match fetched {
        Ok(body) => {
            extract_page_metadata(body.as_str(), &mut info.homepage_title, &mut info.homepage_description);
        },
        Err(message) => {
            let mut e = String::from_str("Failed to fetch homepage: ");
            e.append(message.as_str());
            info.error = Some(e);
        },
    }
}


// ---------------------------------------------------------------------------
// Laws
// ---------------------------------------------------------------------------

/// Adding addresses keeps the earlier records first and a list of records
/// without repeats stays so; every added address ends up recorded.
pub proof fn address_records_stay_distinct(base: Seq<Seq<char>>, xs: Seq<Seq<char>>)
    requires
        base.no_duplicates(),
    ensures
        extend_absent(base, xs).no_duplicates(),
        extend_absent(base, xs).take(base.len() as int) == base,
        base.len() <= extend_absent(base, xs).len(),
        forall|k: int| 0 <= k < xs.len() ==> extend_absent(base, xs).contains(#[trigger] xs[k]),
    decreases xs.len(),
{
    if xs.len() > 0 {
        let ys = xs.drop_last();
        address_records_stay_distinct(base, ys);
        let b = extend_absent(base, ys);
        let x = xs.last();
        if !b.contains(x) {
            let r = b.push(x);
            assert(r.take(base.len() as int) =~= b.take(base.len() as int));
            assert forall|i: int, j: int| 0 <= i < r.len() && 0 <= j < r.len() && i != j implies r[i] != r[j] by {
                if i == r.len() - 1 {
                    assert(r[j] == b[j]);
                } else if j == r.len() - 1 {
                    assert(r[i] == b[i]);
                } else {
                    assert(r[i] == b[i] && r[j] == b[j]);
                }
            }
        }
        assert forall|k: int| 0 <= k < xs.len() implies extend_absent(base, xs).contains(#[trigger] xs[k]) by {
            if k < ys.len() {
                assert(xs[k] == ys[k]);
                assert(b.contains(ys[k]));
                let i = choose|i: int| 0 <= i < b.len() && b[i] == ys[k];
                if !b.contains(x) {
                    assert(b.push(x)[i] == b[i]);
                }
            } else {
                assert(xs[k] == x);
                if !b.contains(x) {
                    assert(b.push(x)[b.len() as int] == x);
                }
            }
        }
    }
}

} // verus!
