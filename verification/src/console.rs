//! The console reports: the investigation and the domain profile as lines of
//! pieces of text, each piece with the tone it is shown in. The terminal
//! front end only colours and prints them.

use vstd::prelude::*;
use crate::domain::{DomainInfo, DomainPage};
use crate::html_report::{join_strings, prefix_exec, prefix_of, text_or};
use crate::identity::{IdentityCluster, Ratio, Signal, SignalView, signal_views};
use crate::timeline::{ActivityTimeline, year_map_view};
use crate::types::ClaimedProfile;
use crate::text::{chars_of, decimal, u64_to_decimal, find_char_from, find_char_from_exec, lemma_find_char_from, join, lines_exec, spec_lines, string_of, views};
use crate::types::opt_view;

verus! {

// ---------------------------------------------------------------------------
// Lines and pieces
// ---------------------------------------------------------------------------

/// How a piece of text is shown: plain, dimmed, white, white and bold, cyan,
/// cyan and bold, green, green and bold, yellow and bold, red, red and bold.
#[derive(Clone, Copy, PartialEq, Eq, Debug, Structural)]
pub enum Tone {
    Plain,
    Dim,
    Bright,
    Strong,
    Accent,
    AccentBold,
    Good,
    GoodBold,
    WarnBold,
    Bad,
    BadBold,
}

/// A piece of a line: text in a tone, or a similarity, shown as a whole
/// percentage.
#[derive(Clone, Debug)]
pub enum Piece {
    Text { text: String, tone: Tone },
    Percent(Ratio),
}

/// The mathematical meaning of a [`Piece`].
pub enum PieceView {
    Text(Seq<char>, Tone),
    Percent(nat, nat),
}

/// The view of a piece.
pub open spec fn piece_view(p: Piece) -> PieceView {
    match p {
        Piece::Text { text, tone } => PieceView::Text(text@, tone),
        Piece::Percent(r) => PieceView::Percent(r.num as nat, r.den as nat),
    }
}

/// The view of a line.
pub open spec fn line_view(l: Seq<Piece>) -> Seq<PieceView> {
    l.map_values(|p: Piece| piece_view(p))
}

/// The view of a list of lines.
pub open spec fn lines_view(ls: Seq<Vec<Piece>>) -> Seq<Seq<PieceView>> {
    ls.map_values(|l: Vec<Piece>| line_view(l@))
}

/// Text in a tone.
pub open spec fn txt(s: Seq<char>, tone: Tone) -> PieceView {
    PieceView::Text(s, tone)
}

/// Plain text.
pub open spec fn plain(s: Seq<char>) -> PieceView {
    PieceView::Text(s, Tone::Plain)
}

/// A row under a heading: its mark, a dimmed label, two spaces and the value
/// in its tone.
pub open spec fn labelled(mark: Seq<char>, label: Seq<char>, value: Seq<char>, tone: Tone) -> Seq<PieceView> {
    seq![plain(mark), txt(label, Tone::Dim), plain("  "@), txt(value, tone)]
}

/// A line of plain text alone.
pub open spec fn plain_line(s: Seq<char>) -> Seq<PieceView> {
    seq![plain(s)]
}

/// The opening of a report: a blank line and the rule.
pub open spec fn rule_above() -> Seq<Seq<PieceView>> {
    seq![Seq::empty(), plain_line(RULE@)]
}

/// The rule that closes a report, and a blank line.
pub open spec fn rule_below() -> Seq<Seq<PieceView>> {
    seq![plain_line(RULE@), Seq::empty()]
}

/// The rule that frames each report.
pub const RULE: &'static str = "  ══════════════════════════════════════════════════════════════";

fn piece(s: &str, tone: Tone) -> (p: Piece)
    ensures
        piece_view(p) == txt(s@, tone),
{
    Piece::Text { text: s.to_owned(), tone }
}

fn piece_of(s: String, tone: Tone) -> (p: Piece)
    ensures
        piece_view(p) == txt(s@, tone),
{
    Piece::Text { text: s, tone }
}

fn push_piece(l: &mut Vec<Piece>, p: Piece)
    ensures
        line_view(final(l)@) == line_view(old(l)@).push(piece_view(p)),
{
    let ghost o = l@;
    l.push(p);
    assert(line_view(l@) =~= line_view(o).push(piece_view(p)));
}

fn push_line(ls: &mut Vec<Vec<Piece>>, l: Vec<Piece>)
    ensures
        lines_view(final(ls)@) == lines_view(old(ls)@).push(line_view(l@)),
{
    let ghost o = ls@;
    let ghost lv = line_view(l@);
    ls.push(l);
    assert(lines_view(ls@) =~= lines_view(o).push(lv));
}

fn empty_line() -> (l: Vec<Piece>)
    ensures
        line_view(l@) == Seq::<PieceView>::empty(),
{
    let l: Vec<Piece> = Vec::new();
    assert(line_view(l@) =~= Seq::<PieceView>::empty());
    l
}

fn line2(a: Piece, b: Piece) -> (l: Vec<Piece>)
    ensures
        line_view(l@) == seq![piece_view(a), piece_view(b)],
{
    let ghost (va, vb) = (piece_view(a), piece_view(b));
    let mut l = empty_line();
    push_piece(&mut l, a);
    push_piece(&mut l, b);
    assert(line_view(l@) =~= seq![va, vb]);
    l
}

fn line4(a: Piece, b: Piece, c: Piece, d: Piece) -> (l: Vec<Piece>)
    ensures
        line_view(l@) == seq![piece_view(a), piece_view(b), piece_view(c), piece_view(d)],
{
    let ghost (va, vb, vc, vd) = (piece_view(a), piece_view(b), piece_view(c), piece_view(d));
    let mut l = empty_line();
    push_piece(&mut l, a);
    push_piece(&mut l, b);
    push_piece(&mut l, c);
    push_piece(&mut l, d);
    assert(line_view(l@) =~= seq![va, vb, vc, vd]);
    l
}

fn plain_line_exec(s: String) -> (l: Vec<Piece>)
    ensures
        line_view(l@) == plain_line(s@),
{
    let mut l = empty_line();
    push_piece(&mut l, piece_of(s, Tone::Plain));
    assert(line_view(l@) =~= plain_line(s@));
    l
}

fn labelled_exec(mark: &str, label: &str, value: String, tone: Tone) -> (l: Vec<Piece>)
    ensures
        line_view(l@) == labelled(mark@, label@, value@, tone),
{
    let ghost v = value@;
    let mut l = empty_line();
    push_piece(&mut l, piece(mark, Tone::Plain));
    push_piece(&mut l, piece(label, Tone::Dim));
    push_piece(&mut l, piece("  ", Tone::Plain));
    push_piece(&mut l, piece_of(value, tone));
    assert(line_view(l@) =~= labelled(mark@, label@, v, tone));
    l
}

fn push_rule_above(ls: &mut Vec<Vec<Piece>>)
    ensures
        lines_view(final(ls)@) == lines_view(old(ls)@) + rule_above(),
{
    let ghost o = lines_view(ls@);
    push_line(ls, empty_line());
    push_line(ls, plain_line_exec(RULE.to_owned()));
    assert(lines_view(ls@) =~= o + rule_above());
}

fn push_rule_below(ls: &mut Vec<Vec<Piece>>)
    ensures
        lines_view(final(ls)@) == lines_view(old(ls)@) + rule_below(),
{
    let ghost o = lines_view(ls@);
    push_line(ls, plain_line_exec(RULE.to_owned()));
    push_line(ls, empty_line());
    assert(lines_view(ls@) =~= o + rule_below());
}

fn opt_clone(o: &Option<String>) -> (r: Option<String>)
    ensures
        opt_view(r) == opt_view(*o),
{
    match o {
        Some(s) => Some(s.clone()),
        None => None,
    }
}

fn concat_owned(a: &str, b: &str) -> (r: String)
    ensures
        r@ == a@ + b@,
{
    let mut s = a.to_owned();
    s.append(b);
    s
}

// ---------------------------------------------------------------------------
// The domain report
// ---------------------------------------------------------------------------

/// The row of a kind of DNS record: none when there is no record, else the
/// records joined with commas.
pub open spec fn record_row(label: Seq<char>, recs: Seq<Seq<char>>) -> Seq<Seq<PieceView>> {
    if recs.len() == 0 {
        Seq::empty()
    } else {
        seq![labelled("  ├─ "@, label, join(recs, ", "@), Tone::Plain)]
    }
}

/// The row of an optional value: none when it is absent.
pub open spec fn opt_row(mark: Seq<char>, label: Seq<char>, o: Option<Seq<char>>, tone: Tone) -> Seq<Seq<PieceView>> {
    match o {
        Some(v) => seq![labelled(mark, label, v, tone)],
        None => Seq::empty(),
    }
}

/// Each line indented under the row above it.
pub open spec fn indented(ls: Seq<Seq<char>>) -> Seq<Seq<PieceView>>
    decreases ls.len(),
{
    if ls.len() == 0 {
        Seq::empty()
    } else {
        indented(ls.drop_last()).push(plain_line("  │   "@ + ls.last()))
    }
}

/// The WHOIS block: a heading, then each line of the text indented.
pub open spec fn whois_rows(w: Option<Seq<char>>) -> Seq<Seq<PieceView>> {
    match w {
        Some(t) => seq![seq![plain("  ├─ "@), txt("WHOIS:"@, Tone::Dim)]] + indented(spec_lines(t)),
        None => Seq::empty(),
    }
}

/// What comes before the first `:` of a social link (all of it without
/// one): the network's name.
pub open spec fn before_colon(s: Seq<char>) -> Seq<char> {
    match find_char_from(s, ':', 0) {
        Some(i) => s.take(i as int),
        None => s,
    }
}

/// The names of the first three social links of a page.
pub open spec fn first_networks(links: Seq<Seq<char>>) -> Seq<Seq<char>> {
    let n: int = if links.len() < 3 {
        links.len() as int
    } else {
        3
    };
    links.take(n).map_values(|s: Seq<char>| before_colon(s))
}

/// The lines of one scraped page: its path and title, then its e-mail
/// addresses and its first social networks where it has any.
pub open spec fn page_rows(p: DomainPage) -> Seq<Seq<PieceView>> {
    seq![
        seq![
            plain("  │   "@),
            txt(p.path@, Tone::Accent),
            plain("  "@),
            txt(text_or(opt_view(p.title), "?"@), Tone::Strong),
        ],
    ] + (if p.emails@.len() == 0 {
        Seq::empty()
    } else {
        seq![plain_line("  │     └ emails: "@ + join(views(p.emails@), ", "@))]
    }) + (if p.social_links@.len() == 0 {
        Seq::empty()
    } else {
        seq![plain_line("  │     └ social: "@ + join(first_networks(views(p.social_links@)), ", "@))]
    })
}

/// The lines of the scraped pages, in order.
pub open spec fn pages_rows(ps: Seq<DomainPage>) -> Seq<Seq<PieceView>>
    decreases ps.len(),
{
    if ps.len() == 0 {
        Seq::empty()
    } else {
        pages_rows(ps.drop_last()) + page_rows(ps.last())
    }
}

/// The scraped-pages block: none without a page.
pub open spec fn pages_block(ps: Seq<DomainPage>) -> Seq<Seq<PieceView>> {
    if ps.len() == 0 {
        Seq::empty()
    } else {
        seq![seq![plain("  ├─ "@), txt("PAGES SCRAPED:"@, Tone::Dim)]] + pages_rows(ps)
    }
}

/// The heading of the domain report.
pub open spec fn domain_head(d: DomainInfo) -> Seq<Seq<PieceView>> {
    rule_above() + seq![
        seq![plain("  "@), txt("DOMAIN"@, Tone::AccentBold), plain("  ── "@), txt(d.domain@, Tone::Strong)],
        plain_line(RULE@),
    ]
}

/// The DNS rows of the domain report, in the order A, AAAA, MX, TXT, NS.
pub open spec fn dns_rows(d: DomainInfo) -> Seq<Seq<PieceView>> {
    record_row("A Records:"@, views(d.a_records@)) + record_row("AAAA Records:"@, views(d.aaaa_records@))
        + record_row("MX Records:"@, views(d.mx_records@)) + record_row("TXT Records:"@, views(d.txt_records@))
        + record_row("NS Records:"@, views(d.ns_records@))
}

/// The homepage rows: its title, and the first 120 characters of its
/// description.
pub open spec fn homepage_rows(d: DomainInfo) -> Seq<Seq<PieceView>> {
    opt_row("  ├─ "@, "Homepage Title:"@, opt_view(d.homepage_title), Tone::Bright) + opt_row(
        "  ├─ "@,
        "Description:"@,
        match d.homepage_description {
            Some(s) => Some(prefix_of(s@, 120)),
            None => None,
        },
        Tone::Dim,
    )
}

/// The console lines of a domain profile: the heading, the DNS records, the
/// homepage, the WHOIS text, the error, the scraped pages, and the closing
/// rule.
pub open spec fn spec_domain_lines(d: DomainInfo) -> Seq<Seq<PieceView>> {
    domain_head(d) + dns_rows(d) + homepage_rows(d) + whois_rows(opt_view(d.whois)) + opt_row(
        "  └─ "@,
        "Error:"@,
        opt_view(d.error),
        Tone::Bad,
    ) + pages_block(d.pages.pages@) + rule_below()
}

fn push_record_row(ls: &mut Vec<Vec<Piece>>, label: &str, recs: &Vec<String>)
    ensures
        lines_view(final(ls)@) == lines_view(old(ls)@) + record_row(label@, views(recs@)),
{
    if recs.len() == 0 {
        assert(lines_view(ls@) =~= lines_view(ls@) + Seq::<Seq<PieceView>>::empty());
    } else {
        let ghost o = lines_view(ls@);
        let j = join_strings(recs, ", ");
        push_line(ls, labelled_exec("  ├─ ", label, j, Tone::Plain));
        assert(lines_view(ls@) =~= o + record_row(label@, views(recs@)));
    }
}

fn push_opt_row(ls: &mut Vec<Vec<Piece>>, mark: &str, label: &str, o: Option<String>, tone: Tone)
    ensures
        lines_view(final(ls)@) == lines_view(old(ls)@) + opt_row(mark@, label@, opt_view(o), tone),
{
    let ghost before = lines_view(ls@);
    match o {
        Some(v) => {
            push_line(ls, labelled_exec(mark, label, v, tone));
        },
        None => {},
    }
    assert(lines_view(ls@) =~= before + opt_row(mark@, label@, opt_view(o), tone));
}

fn push_whois(ls: &mut Vec<Vec<Piece>>, w: &Option<String>)
    ensures
        lines_view(final(ls)@) == lines_view(old(ls)@) + whois_rows(opt_view(*w)),
{
    let ghost before = lines_view(ls@);
    match w {
        None => {
            assert(lines_view(ls@) =~= before + whois_rows(opt_view(*w)));
        },
        Some(t) => {
            push_line(ls, line2(piece("  ├─ ", Tone::Plain), piece("WHOIS:", Tone::Dim)));
            let ghost start = lines_view(ls@);
            assert(start =~= before + seq![seq![plain("  ├─ "@), txt("WHOIS:"@, Tone::Dim)]]);
            let cs = chars_of(t.as_str());
            let lines = lines_exec(cs.as_slice());
            let ghost lv = spec_lines(t@);
            let mut i: usize = 0;
            while i < lines.len()
                invariant
                    i <= lines@.len(),
                    lines@.map_values(|l: Vec<char>| l@) == lv,
                    lines_view(ls@) == start + indented(lv.take(i as int)),
                decreases lines@.len() - i,
            {
                let body = string_of(lines[i].as_slice());
                let s = concat_owned("  │   ", body.as_str());
                assert(lv[i as int] == lines@[i as int]@);
                push_line(ls, plain_line_exec(s));
                assert(lv.take(i + 1).drop_last() =~= lv.take(i as int));
                assert(lines_view(ls@) =~= start + indented(lv.take(i + 1)));
                i += 1;
            }
            assert(lv.take(lines@.len() as int) =~= lv);
            assert(lines_view(ls@) =~= before + whois_rows(opt_view(*w)));
        },
    }
}

fn before_colon_exec(s: &String) -> (r: String)
    ensures
        r@ == before_colon(s@),
{
    let cs = chars_of(s.as_str());
    proof {
        lemma_find_char_from(cs@, ':', 0);
    }
    match find_char_from_exec(cs.as_slice(), ':', 0) {
        Some(i) => {
            let mut out: Vec<char> = Vec::new();
            let mut k: usize = 0;
            while k < i
                invariant
                    cs@ == s@,
                    k <= i,
                    i < cs@.len(),
                    out@ == cs@.take(k as int),
                decreases i - k,
            {
                out.push(cs[k]);
                assert(cs@.take(k + 1) =~= cs@.take(k as int).push(cs@[k as int]));
                k += 1;
            }
            string_of(out.as_slice())
        },
        None => s.clone(),
    }
}

fn first_networks_exec(links: &Vec<String>) -> (r: Vec<String>)
    ensures
        views(r@) == first_networks(views(links@)),
{
    let n: usize = if links.len() < 3 {
        links.len()
    } else {
        3
    };
    let ghost f = |s: Seq<char>| before_colon(s);
    let ghost lv = views(links@);
    let mut r: Vec<String> = Vec::new();
    let mut i: usize = 0;
    while i < n
        invariant
            n <= links@.len(),
            i <= n,
            lv == views(links@),
            f == (|s: Seq<char>| before_colon(s)),
            views(r@) == lv.take(i as int).map_values(f),
        decreases n - i,
    {
        let b = before_colon_exec(&links[i]);
        let ghost rv = views(r@);
        r.push(b);
        assert(views(r@) =~= rv.push(b@));
        assert(lv.take(i + 1).map_values(f) =~= lv.take(i as int).map_values(f).push(f(lv[i as int])));
        i += 1;
    }
    r
}

fn push_page_rows(ls: &mut Vec<Vec<Piece>>, p: &DomainPage)
    ensures
        lines_view(final(ls)@) == lines_view(old(ls)@) + page_rows(*p),
{
    let ghost before = lines_view(ls@);
    let title = match &p.title {
        Some(t) => t.as_str(),
        None => "?",
    };
    push_line(
        ls,
        line4(
            piece("  │   ", Tone::Plain),
            piece(p.path.as_str(), Tone::Accent),
            piece("  ", Tone::Plain),
            piece(title, Tone::Strong),
        ),
    );
    let ghost a = lines_view(ls@);
    let ghost head_rows = seq![
        seq![
            plain("  │   "@),
            txt(p.path@, Tone::Accent),
            plain("  "@),
            txt(text_or(opt_view(p.title), "?"@), Tone::Strong),
        ],
    ];
    assert(a =~= before + head_rows);
    if p.emails.len() > 0 {
        let j = join_strings(&p.emails, ", ");
        push_line(ls, plain_line_exec(concat_owned("  │     └ emails: ", j.as_str())));
    }
    let ghost b = lines_view(ls@);
    assert(b =~= a + (if p.emails@.len() == 0 {
        Seq::empty()
    } else {
        seq![plain_line("  │     └ emails: "@ + join(views(p.emails@), ", "@))]
    }));
    if p.social_links.len() > 0 {
        let nets = first_networks_exec(&p.social_links);
        let j = join_strings(&nets, ", ");
        push_line(ls, plain_line_exec(concat_owned("  │     └ social: ", j.as_str())));
    }
    assert(lines_view(ls@) =~= b + (if p.social_links@.len() == 0 {
        Seq::empty()
    } else {
        seq![plain_line("  │     └ social: "@ + join(first_networks(views(p.social_links@)), ", "@))]
    }));
    assert(lines_view(ls@) =~= before + page_rows(*p));
}

fn push_pages_block(ls: &mut Vec<Vec<Piece>>, pages: &Vec<DomainPage>)
    ensures
        lines_view(final(ls)@) == lines_view(old(ls)@) + pages_block(pages@),
{
    let ghost before = lines_view(ls@);
    if pages.len() == 0 {
        assert(lines_view(ls@) =~= before + pages_block(pages@));
        return;
    }
    push_line(ls, line2(piece("  ├─ ", Tone::Plain), piece("PAGES SCRAPED:", Tone::Dim)));
    let ghost start = lines_view(ls@);
    assert(start =~= before + seq![seq![plain("  ├─ "@), txt("PAGES SCRAPED:"@, Tone::Dim)]]);
    let mut i: usize = 0;
    while i < pages.len()
        invariant
            i <= pages@.len(),
            lines_view(ls@) == start + pages_rows(pages@.take(i as int)),
        decreases pages@.len() - i,
    {
        assert(pages@.take(i + 1).drop_last() =~= pages@.take(i as int));
        push_page_rows(ls, &pages[i]);
        assert(lines_view(ls@) =~= start + pages_rows(pages@.take(i + 1)));
        i += 1;
    }
    assert(pages@.take(pages@.len() as int) =~= pages@);
    assert(lines_view(ls@) =~= before + pages_block(pages@));
}

/// The console lines of a domain profile.
pub fn domain_report_lines(info: &DomainInfo) -> (r: Vec<Vec<Piece>>)
    ensures
        lines_view(r@) == spec_domain_lines(*info),
{
    let mut ls: Vec<Vec<Piece>> = Vec::new();
    assert(lines_view(ls@) =~= Seq::<Seq<PieceView>>::empty());
    push_rule_above(&mut ls);
    push_line(
        &mut ls,
        line4(
            piece("  ", Tone::Plain),
            piece("DOMAIN", Tone::AccentBold),
            piece("  ── ", Tone::Plain),
            piece(info.domain.as_str(), Tone::Strong),
        ),
    );
    push_line(&mut ls, plain_line_exec(RULE.to_owned()));
    let ghost h = lines_view(ls@);
    assert(h =~= domain_head(*info));
    push_record_row(&mut ls, "A Records:", &info.a_records);
    push_record_row(&mut ls, "AAAA Records:", &info.aaaa_records);
    push_record_row(&mut ls, "MX Records:", &info.mx_records);
    push_record_row(&mut ls, "TXT Records:", &info.txt_records);
    push_record_row(&mut ls, "NS Records:", &info.ns_records);
    let ghost d = lines_view(ls@);
    assert(d =~= h + dns_rows(*info));
    push_opt_row(&mut ls, "  ├─ ", "Homepage Title:", opt_clone(&info.homepage_title), Tone::Bright);
    let desc = match &info.homepage_description {
        Some(s) => Some(prefix_exec(s.as_str(), 120)),
        None => None,
    };
    push_opt_row(&mut ls, "  ├─ ", "Description:", desc, Tone::Dim);
    let ghost hp = lines_view(ls@);
    assert(hp =~= d + homepage_rows(*info));
    push_whois(&mut ls, &info.whois);
    push_opt_row(&mut ls, "  └─ ", "Error:", opt_clone(&info.error), Tone::Bad);
    push_pages_block(&mut ls, &info.pages.pages);
    push_rule_below(&mut ls);
    assert(lines_view(ls@) =~= spec_domain_lines(*info));
    ls
}

// ---------------------------------------------------------------------------
// The investigation report
// ---------------------------------------------------------------------------

/// The rule after the identity heading.
pub const RULE_IDENTITY: &'static str = "  ──────────────────────────────────────────────────";

/// The rule after the signals heading.
pub const RULE_SIGNALS: &'static str = "  ──────────────────────────────────────────────";

/// The rule after the timeline and profiles headings.
pub const RULE_SECTION: &'static str = "  ────────────────────────────────────────────────────";

/// `n` copies of `c`.
pub open spec fn repeated(c: char, n: nat) -> Seq<char> {
    Seq::new(n, |i: int| c)
}

/// A section heading: a blank line, then the title in bold cyan and its
/// rule.
pub open spec fn heading(title: Seq<char>, rule: Seq<char>) -> Seq<Seq<PieceView>> {
    seq![Seq::empty(), seq![plain("  "@), txt(title, Tone::AccentBold), plain(rule)]]
}

/// The heading of the investigation report.
pub open spec fn report_head(username: Seq<char>) -> Seq<Seq<PieceView>> {
    rule_above() + seq![
        seq![plain("  "@), txt("OSINT REPORT"@, Tone::Strong), plain("  ── "@), txt(username, Tone::Strong)],
        plain_line(RULE@),
    ]
}

/// The strings joined with commas, or a dash when there is none.
pub open spec fn list_or_dash(v: Seq<Seq<char>>) -> Seq<char> {
    if v.len() == 0 {
        "—"@
    } else {
        join(v, ", "@)
    }
}

/// How many squares of the bar of twenty a score out of a hundred fills: a
/// fifth of it, rounded to the nearest.
pub open spec fn bar_filled(confidence: nat) -> nat {
    (2 * confidence + 5) / 10
}

/// The verdict on a score: high from 80, medium from 60, low from 40, very
/// low below.
pub open spec fn verdict(confidence: nat) -> PieceView {
    if confidence >= 80 {
        txt("HIGH"@, Tone::GoodBold)
    } else if confidence >= 60 {
        txt("MEDIUM"@, Tone::WarnBold)
    } else if confidence >= 40 {
        txt("LOW"@, Tone::WarnBold)
    } else {
        txt("VERY LOW"@, Tone::BadBold)
    }
}

/// The line of the score: the number out of a hundred, a bar of twenty
/// squares, the filled ones green, and the verdict.
pub open spec fn confidence_line(confidence: nat) -> Seq<PieceView> {
    seq![
        plain("  "@),
        txt("CONFIDENCE SCORE:"@, Tone::AccentBold),
        plain("  "@),
        txt(decimal(confidence), Tone::Strong),
        plain(" / 100  ["@),
        txt(repeated('▓', bar_filled(confidence)), Tone::Good),
        plain(repeated('░', (20 - bar_filled(confidence)) as nat)),
        plain("] "@),
        verdict(confidence),
    ]
}

/// The date of the earliest account in brackets, or nothing.
pub open spec fn earliest_note(t: ActivityTimeline) -> Seq<char> {
    match t.earliest_account {
        Some(e) => "("@ + e.date@ + ")"@,
        None => Seq::empty(),
    }
}

/// The footprint row of the identity block: none without a timeline that
/// counts one.
pub open spec fn identity_footprint(t: Option<ActivityTimeline>) -> Seq<Seq<PieceView>> {
    match t {
        Some(tl) => match tl.digital_footprint_years {
            Some(f) => seq![
                labelled(
                    "  └─ "@,
                    "Digital Footprint:"@,
                    decimal(f as nat) + " years "@ + earliest_note(tl),
                    Tone::Plain,
                ),
            ],
            None => Seq::empty(),
        },
        None => Seq::empty(),
    }
}

/// The line of one shared signal.
pub open spec fn signal_line(s: SignalView) -> Seq<PieceView> {
    match s {
        SignalView::SameName(n) => seq![plain("  ├─ "@), txt("Same name:"@, Tone::Dim), plain(" "@), txt(n, Tone::Bright)],
        SignalView::SameAvatar { site_a, site_b, hash_distance } => seq![
            plain("  ├─ "@),
            txt("Same avatar:"@, Tone::Dim),
            plain("  "@),
            txt(site_a, Tone::Accent),
            plain(" ↔ "@),
            txt(site_b, Tone::Accent),
            plain("  (distance: "@ + decimal(hash_distance) + ")"@),
        ],
        SignalView::CrossLinked { from_site, to_url } => seq![
            plain("  ├─ "@),
            txt("Cross-link:"@, Tone::Dim),
            plain("  "@),
            txt(from_site, Tone::Accent),
            plain(" → "@),
            txt(to_url, Tone::Dim),
        ],
        SignalView::SameLocation(l) => labelled("  ├─ "@, "Same location:"@, l, Tone::Bright),
        SignalView::SameWebsite(w) => labelled("  ├─ "@, "Same website:"@, w, Tone::Bright),
        SignalView::SameEmail(e) => labelled("  ├─ "@, "Same email:"@, e, Tone::Bright),
        SignalView::SameBio { num, den } => seq![
            plain("  ├─ "@),
            txt("Bio similarity:"@, Tone::Dim),
            plain("  "@),
            PieceView::Percent(num, den),
            plain("%"@),
        ],
    }
}

/// The lines of the signals, in order.
pub open spec fn signal_rows(v: Seq<SignalView>) -> Seq<Seq<PieceView>>
    decreases v.len(),
{
    if v.len() == 0 {
        Seq::empty()
    } else {
        signal_rows(v.drop_last()).push(signal_line(v.last()))
    }
}

/// The signals block: none without a signal.
pub open spec fn signals_block(v: Seq<SignalView>) -> Seq<Seq<PieceView>> {
    if v.len() == 0 {
        Seq::empty()
    } else {
        heading("SIGNALS DETECTED"@, RULE_SIGNALS@) + signal_rows(v)
    }
}

/// The identity block: the inferred name (with on how many of the found
/// platforms the cluster was seen), location, e-mail addresses and phone
/// numbers, the footprint, the score and the shared signals.
pub open spec fn identity_block(
    c: IdentityCluster,
    confidence: nat,
    t: Option<ActivityTimeline>,
    n_profiles: nat,
) -> Seq<Seq<PieceView>> {
    heading("IDENTITY"@, RULE_IDENTITY@) + seq![
        seq![
            plain("  ├─ "@),
            txt("Inferred Name:"@, Tone::Dim),
            plain("  "@),
            txt(text_or(opt_view(c.inferred_name), "Unknown"@), Tone::Strong),
            plain(
                "  (seen on "@ + decimal(c.accounts@.len()) + "/"@ + decimal(
                    if n_profiles == 0 {
                        1
                    } else {
                        n_profiles
                    },
                ) + " platforms)"@,
            ),
        ],
        labelled("  ├─ "@, "Inferred Location:"@, text_or(opt_view(c.inferred_location), "Unknown"@), Tone::Plain),
        labelled("  ├─ "@, "Emails:"@, list_or_dash(views(c.emails_found@)), Tone::Plain),
        labelled("  ├─ "@, "Phones:"@, list_or_dash(views(c.phones_found@)), Tone::Plain),
    ] + identity_footprint(t) + seq![Seq::empty(), confidence_line(confidence)] + signals_block(
        signal_views(c.shared_signals@),
    )
}

/// The lines of the years of a timeline: each year in bold and the sites
/// joined in it.
pub open spec fn year_rows(v: Seq<(Seq<char>, Seq<Seq<char>>)>) -> Seq<Seq<PieceView>>
    decreases v.len(),
{
    if v.len() == 0 {
        Seq::empty()
    } else {
        year_rows(v.drop_last()).push(
            seq![plain("  ├─ "@), txt(v.last().0, Tone::Strong), plain("  "@ + join(v.last().1, ", "@))],
        )
    }
}

/// The timeline block: the years, then the footprint where there is one.
pub open spec fn timeline_block(t: ActivityTimeline) -> Seq<Seq<PieceView>> {
    heading("TIMELINE"@, RULE_SECTION@) + year_rows(year_map_view(t.platforms_by_year@)) + match t.digital_footprint_years {
        Some(f) => seq![labelled("  └─ "@, "Digital footprint:"@, decimal(f as nat) + " years"@, Tone::Plain)],
        None => Seq::empty(),
    }
}

/// The lines of one profile: its site, name and address, then its bio where
/// it has one.
pub open spec fn profile_rows(p: ClaimedProfile) -> Seq<Seq<PieceView>> {
    seq![
        seq![
            plain("  ├─ "@),
            txt(p.site_name@, Tone::Accent),
            plain("  "@ + text_or(opt_view(p.details.display_name), "?"@) + "  ("@),
            txt(p.site_url@, Tone::Dim),
            plain(")"@),
        ],
    ] + if text_or(opt_view(p.details.bio), ""@).len() == 0 {
        Seq::empty()
    } else {
        seq![seq![plain("  │   Bio: "@), txt(text_or(opt_view(p.details.bio), ""@), Tone::Dim)]]
    }
}

/// The lines of the profiles, in order.
pub open spec fn profiles_rows(ps: Seq<ClaimedProfile>) -> Seq<Seq<PieceView>>
    decreases ps.len(),
{
    if ps.len() == 0 {
        Seq::empty()
    } else {
        profiles_rows(ps.drop_last()) + profile_rows(ps.last())
    }
}

/// The console lines of an investigation: the heading; the identity block
/// where there is a cluster; the timeline where there is one; the profiles
/// one by one where there are some and no cluster; the closing rule.
pub open spec fn spec_report_lines(
    cluster: Option<IdentityCluster>,
    confidence: nat,
    timeline: Option<ActivityTimeline>,
    profiles: Seq<ClaimedProfile>,
    username: Seq<char>,
) -> Seq<Seq<PieceView>> {
    report_head(username) + match cluster {
        Some(c) => identity_block(c, confidence, timeline, profiles.len()),
        None => Seq::empty(),
    } + match timeline {
        Some(t) => timeline_block(t),
        None => Seq::empty(),
    } + if profiles.len() > 0 && cluster is None {
        heading("PROFILES"@, RULE_SECTION@) + profiles_rows(profiles)
    } else {
        Seq::empty()
    } + rule_below()
}


fn repeat_char(c: char, n: usize) -> (s: String)
    ensures
        s@ == repeated(c, n as nat),
{
    let mut cs: Vec<char> = Vec::new();
    let mut i: usize = 0;
    while i < n
        invariant
            i <= n,
            cs@ == repeated(c, i as nat),
        decreases n - i,
    {
        cs.push(c);
        i += 1;
        assert(cs@ =~= repeated(c, i as nat));
    }
    string_of(cs.as_slice())
}

fn push_heading(ls: &mut Vec<Vec<Piece>>, title: &str, rule: &str)
    ensures
        lines_view(final(ls)@) == lines_view(old(ls)@) + heading(title@, rule@),
{
    let ghost o = lines_view(ls@);
    push_line(ls, empty_line());
    let l = vec![piece("  ", Tone::Plain), piece(title, Tone::AccentBold), piece(rule, Tone::Plain)];
    assert(line_view(l@) =~= seq![plain("  "@), txt(title@, Tone::AccentBold), plain(rule@)]);
    push_line(ls, l);
    assert(lines_view(ls@) =~= o + heading(title@, rule@));
}

fn confidence_line_exec(confidence: u32) -> (l: Vec<Piece>)
    requires
        confidence <= 100,
    ensures
        line_view(l@) == confidence_line(confidence as nat),
{
    let filled: usize = ((2 * confidence + 5) / 10) as usize;
    let verdict = if confidence >= 80 {
        piece("HIGH", Tone::GoodBold)
    } else if confidence >= 60 {
        piece("MEDIUM", Tone::WarnBold)
    } else if confidence >= 40 {
        piece("LOW", Tone::WarnBold)
    } else {
        piece("VERY LOW", Tone::BadBold)
    };
    let empty: usize = 20 - filled;
    let l = vec![
        piece("  ", Tone::Plain),
        piece("CONFIDENCE SCORE:", Tone::AccentBold),
        piece("  ", Tone::Plain),
        piece_of(u64_to_decimal(confidence as u64), Tone::Strong),
        piece(" / 100  [", Tone::Plain),
        piece_of(repeat_char('▓', filled), Tone::Good),
        piece_of(repeat_char('░', empty), Tone::Plain),
        piece("] ", Tone::Plain),
        verdict,
    ];
    assert(line_view(l@) =~= confidence_line(confidence as nat));
    l
}

fn joined_or_dash(v: &Vec<String>) -> (r: String)
    ensures
        r@ == list_or_dash(views(v@)),
{
    if v.len() == 0 {
        "—".to_owned()
    } else {
        join_strings(v, ", ")
    }
}

fn push_identity_footprint(ls: &mut Vec<Vec<Piece>>, t: Option<&ActivityTimeline>)
    ensures
        lines_view(final(ls)@) == lines_view(old(ls)@) + identity_footprint(match t {
            Some(x) => Some(*x),
            None => None,
        }),
{
    let ghost o = lines_view(ls@);
    match t {
        Some(tl) => match tl.digital_footprint_years {
            Some(f) => {
                let mut v = u64_to_decimal(f as u64);
                v.append(" years ");
                let ghost pre = v@;
                match &tl.earliest_account {
                    Some(e) => {
                        v.append("(");
                        v.append(e.date.as_str());
                        v.append(")");
                    },
                    None => {},
                }
                assert(v@ =~= pre + earliest_note(*tl));
                push_line(ls, labelled_exec("  └─ ", "Digital Footprint:", v, Tone::Plain));
            },
            None => {},
        },
        None => {},
    }
    assert(lines_view(ls@) =~= o + identity_footprint(match t {
        Some(x) => Some(*x),
        None => None,
    }));
}

fn signal_line_exec(s: &Signal) -> (l: Vec<Piece>)
    ensures
        line_view(l@) == signal_line(s@),
{
    match s {
        Signal::SameName(n) => {
            let l = vec![piece("  ├─ ", Tone::Plain), piece("Same name:", Tone::Dim), piece(" ", Tone::Plain), piece(n.as_str(), Tone::Bright)];
            assert(line_view(l@) =~= signal_line(s@));
            l
        },
        Signal::SameAvatar { site_a, site_b, hash_distance } => {
            let mut d = "  (distance: ".to_owned();
            let n = u64_to_decimal(*hash_distance as u64);
            d.append(n.as_str());
            d.append(")");
            let l = vec![
                piece("  ├─ ", Tone::Plain),
                piece("Same avatar:", Tone::Dim),
                piece("  ", Tone::Plain),
                piece(site_a.as_str(), Tone::Accent),
                piece(" ↔ ", Tone::Plain),
                piece(site_b.as_str(), Tone::Accent),
                piece_of(d, Tone::Plain),
            ];
            assert(line_view(l@) =~= signal_line(s@));
            l
        },
        Signal::CrossLinked { from_site, to_url } => {
            let l = vec![
                piece("  ├─ ", Tone::Plain),
                piece("Cross-link:", Tone::Dim),
                piece("  ", Tone::Plain),
                piece(from_site.as_str(), Tone::Accent),
                piece(" → ", Tone::Plain),
                piece(to_url.as_str(), Tone::Dim),
            ];
            assert(line_view(l@) =~= signal_line(s@));
            l
        },
        Signal::SameLocation(x) => labelled_exec("  ├─ ", "Same location:", x.clone(), Tone::Bright),
        Signal::SameWebsite(x) => labelled_exec("  ├─ ", "Same website:", x.clone(), Tone::Bright),
        Signal::SameEmail(x) => labelled_exec("  ├─ ", "Same email:", x.clone(), Tone::Bright),
        Signal::SameBio { similarity } => {
            let l = vec![
                piece("  ├─ ", Tone::Plain),
                piece("Bio similarity:", Tone::Dim),
                piece("  ", Tone::Plain),
                Piece::Percent(*similarity),
                piece("%", Tone::Plain),
            ];
            assert(line_view(l@) =~= signal_line(s@));
            l
        },
    }
}

fn push_signals_block(ls: &mut Vec<Vec<Piece>>, sigs: &Vec<Signal>)
    ensures
        lines_view(final(ls)@) == lines_view(old(ls)@) + signals_block(signal_views(sigs@)),
{
    let ghost o = lines_view(ls@);
    let ghost sv = signal_views(sigs@);
    if sigs.len() == 0 {
        assert(lines_view(ls@) =~= o + signals_block(sv));
        return;
    }
    push_heading(ls, "SIGNALS DETECTED", RULE_SIGNALS);
    let ghost start = lines_view(ls@);
    let mut i: usize = 0;
    while i < sigs.len()
        invariant
            i <= sigs@.len(),
            sv == signal_views(sigs@),
            lines_view(ls@) == start + signal_rows(sv.take(i as int)),
        decreases sigs@.len() - i,
    {
        assert(sv.take(i + 1).drop_last() =~= sv.take(i as int));
        assert(sv[i as int] == sigs@[i as int]@);
        push_line(ls, signal_line_exec(&sigs[i]));
        assert(lines_view(ls@) =~= start + signal_rows(sv.take(i + 1)));
        i += 1;
    }
    assert(sv.take(sigs@.len() as int) =~= sv);
    assert(lines_view(ls@) =~= o + signals_block(sv));
}

fn push_identity_block(
    ls: &mut Vec<Vec<Piece>>,
    c: &IdentityCluster,
    confidence: u32,
    t: Option<&ActivityTimeline>,
    n_profiles: usize,
)
    requires
        confidence <= 100,
    ensures
        lines_view(final(ls)@) == lines_view(old(ls)@) + identity_block(*c, confidence as nat, match t {
            Some(x) => Some(*x),
            None => None,
        }, n_profiles as nat),
{
    let ghost o = lines_view(ls@);
    push_heading(ls, "IDENTITY", RULE_IDENTITY);
    let name = match &c.inferred_name {
        Some(n) => n.as_str(),
        None => "Unknown",
    };
    let shown: usize = if n_profiles == 0 {
        1
    } else {
        n_profiles
    };
    let mut seen = "  (seen on ".to_owned();
    let a = u64_to_decimal(c.accounts.len() as u64);
    seen.append(a.as_str());
    seen.append("/");
    let b = u64_to_decimal(shown as u64);
    seen.append(b.as_str());
    seen.append(" platforms)");
    let l = vec![
        piece("  ├─ ", Tone::Plain),
        piece("Inferred Name:", Tone::Dim),
        piece("  ", Tone::Plain),
        piece(name, Tone::Strong),
        piece_of(seen, Tone::Plain),
    ];
    let ghost lv = line_view(l@);
    assert(lv =~= identity_block(*c, confidence as nat, match t {
        Some(x) => Some(*x),
        None => None,
    }, n_profiles as nat)[2]);
    push_line(ls, l);
    let loc = match &c.inferred_location {
        Some(n) => n.clone(),
        None => "Unknown".to_owned(),
    };
    push_line(ls, labelled_exec("  ├─ ", "Inferred Location:", loc, Tone::Plain));
    push_line(ls, labelled_exec("  ├─ ", "Emails:", joined_or_dash(&c.emails_found), Tone::Plain));
    push_line(ls, labelled_exec("  ├─ ", "Phones:", joined_or_dash(&c.phones_found), Tone::Plain));
    let ghost mid = lines_view(ls@);
    assert(mid =~= o + identity_block(*c, confidence as nat, match t {
        Some(x) => Some(*x),
        None => None,
    }, n_profiles as nat).take(6));
    push_identity_footprint(ls, t);
    push_line(ls, empty_line());
    push_line(ls, confidence_line_exec(confidence));
    push_signals_block(ls, &c.shared_signals);
    assert(lines_view(ls@) =~= o + identity_block(*c, confidence as nat, match t {
        Some(x) => Some(*x),
        None => None,
    }, n_profiles as nat));
}

fn push_timeline_block(ls: &mut Vec<Vec<Piece>>, t: &ActivityTimeline)
    ensures
        lines_view(final(ls)@) == lines_view(old(ls)@) + timeline_block(*t),
{
    let ghost o = lines_view(ls@);
    push_heading(ls, "TIMELINE", RULE_SECTION);
    let ghost start = lines_view(ls@);
    let ghost yv = year_map_view(t.platforms_by_year@);
    let mut i: usize = 0;
    while i < t.platforms_by_year.len()
        invariant
            i <= t.platforms_by_year@.len(),
            yv == year_map_view(t.platforms_by_year@),
            lines_view(ls@) == start + year_rows(yv.take(i as int)),
        decreases t.platforms_by_year@.len() - i,
    {
        assert(yv.take(i + 1).drop_last() =~= yv.take(i as int));
        let year = &t.platforms_by_year[i].0;
        let sites = &t.platforms_by_year[i].1;
        let mut rest = "  ".to_owned();
        let j = join_strings(sites, ", ");
        rest.append(j.as_str());
        let l = vec![piece("  ├─ ", Tone::Plain), piece(year.as_str(), Tone::Strong), piece_of(rest, Tone::Plain)];
        assert(yv[i as int] == (year@, views(sites@)));
        assert(line_view(l@) =~= seq![plain("  ├─ "@), txt(yv[i as int].0, Tone::Strong), plain("  "@ + join(yv[i as int].1, ", "@))]);
        push_line(ls, l);
        assert(lines_view(ls@) =~= start + year_rows(yv.take(i + 1)));
        i += 1;
    }
    assert(yv.take(t.platforms_by_year@.len() as int) =~= yv);
    match t.digital_footprint_years {
        Some(f) => {
            let mut v = u64_to_decimal(f as u64);
            v.append(" years");
            push_line(ls, labelled_exec("  └─ ", "Digital footprint:", v, Tone::Plain));
        },
        None => {},
    }
    assert(lines_view(ls@) =~= o + timeline_block(*t));
}

fn push_profile_rows(ls: &mut Vec<Vec<Piece>>, p: &ClaimedProfile)
    ensures
        lines_view(final(ls)@) == lines_view(old(ls)@) + profile_rows(*p),
{
    let ghost o = lines_view(ls@);
    let name = match &p.details.display_name {
        Some(n) => n.as_str(),
        None => "?",
    };
    let mut mid = "  ".to_owned();
    mid.append(name);
    mid.append("  (");
    let l = vec![
        piece("  ├─ ", Tone::Plain),
        piece(p.site_name.as_str(), Tone::Accent),
        piece_of(mid, Tone::Plain),
        piece(p.site_url.as_str(), Tone::Dim),
        piece(")", Tone::Plain),
    ];
    let ghost lv = line_view(l@);
    assert(lv =~= profile_rows(*p)[0]);
    push_line(ls, l);
    let bio = match &p.details.bio {
        Some(b) => b.as_str(),
        None => "",
    };
    let bc = chars_of(bio);
    if bc.len() > 0 {
        let l2 = vec![piece("  │   Bio: ", Tone::Plain), piece(bio, Tone::Dim)];
        let ghost lv2 = line_view(l2@);
        assert(lv2 =~= seq![plain("  │   Bio: "@), txt(text_or(opt_view(p.details.bio), ""@), Tone::Dim)]);
        push_line(ls, l2);
    }
    assert(lines_view(ls@) =~= o + profile_rows(*p));
}

/// The console lines of an investigation, `confidence` being the score of
/// the cluster out of a hundred.
pub fn investigative_report_lines(
    cluster: Option<&IdentityCluster>,
    confidence: u32,
    timeline: Option<&ActivityTimeline>,
    profiles: &[ClaimedProfile],
    username: &str,
) -> (r: Vec<Vec<Piece>>)
    requires
        confidence <= 100,
    ensures
        lines_view(r@) == spec_report_lines(
            match cluster {
                Some(c) => Some(*c),
                None => None,
            },
            confidence as nat,
            match timeline {
                Some(t) => Some(*t),
                None => None,
            },
            profiles@,
            username@,
        ),
{
    let mut ls: Vec<Vec<Piece>> = Vec::new();
    assert(lines_view(ls@) =~= Seq::<Seq<PieceView>>::empty());
    push_rule_above(&mut ls);
    push_line(
        &mut ls,
        line4(
            piece("  ", Tone::Plain),
            piece("OSINT REPORT", Tone::Strong),
            piece("  ── ", Tone::Plain),
            piece(username, Tone::Strong),
        ),
    );
    push_line(&mut ls, plain_line_exec(RULE.to_owned()));
    let ghost h = lines_view(ls@);
    assert(h =~= report_head(username@));
    match cluster {
        Some(c) => push_identity_block(&mut ls, c, confidence, timeline, profiles.len()),
        None => {},
    }
    let ghost a = lines_view(ls@);
    match timeline {
        Some(t) => push_timeline_block(&mut ls, t),
        None => {},
    }
    let ghost b = lines_view(ls@);
    if profiles.len() > 0 && cluster.is_none() {
        push_heading(&mut ls, "PROFILES", RULE_SECTION);
        let ghost start = lines_view(ls@);
        let mut i: usize = 0;
        while i < profiles.len()
            invariant
                i <= profiles@.len(),
                lines_view(ls@) == start + profiles_rows(profiles@.take(i as int)),
            decreases profiles@.len() - i,
        {
            assert(profiles@.take(i + 1).drop_last() =~= profiles@.take(i as int));
            push_profile_rows(&mut ls, &profiles[i]);
            assert(lines_view(ls@) =~= start + profiles_rows(profiles@.take(i + 1)));
            i += 1;
        }
        assert(profiles@.take(profiles@.len() as int) =~= profiles@);
    }
    push_rule_below(&mut ls);
    assert(lines_view(ls@) =~= spec_report_lines(
        match cluster {
            Some(c) => Some(*c),
            None => None,
        },
        confidence as nat,
        match timeline {
            Some(t) => Some(*t),
            None => None,
        },
        profiles@,
        username@,
    ));
    ls
}

} // verus!
