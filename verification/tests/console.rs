use raven::console::{domain_report_lines, investigative_report_lines, Piece, Tone, RULE};
use raven::domain::{DomainInfo, DomainPage, DomainPages};
use raven::identity::{build_identity_cluster, Ratio, Signal};
use raven::timeline::{build_timeline_at, Timestamp};
use raven::types::{ClaimedProfile, ProfileDetails};

fn flat(line: &[Piece]) -> String {
    line.iter()
        .map(|p| match p {
            Piece::Text { text, .. } => text.clone(),
            Piece::Percent(r) => format!("<{}/{}>", r.num, r.den),
        })
        .collect()
}

fn texts(lines: &[Vec<Piece>]) -> Vec<String> {
    lines.iter().map(|l| flat(l)).collect()
}

fn tone_of(line: &[Piece], text: &str) -> Option<Tone> {
    line.iter().find_map(|p| match p {
        Piece::Text { text: t, tone } if t == text => Some(*tone),
        _ => None,
    })
}

fn profile(site: &str, name: Option<&str>, bio: Option<&str>) -> ClaimedProfile {
    ClaimedProfile {
        site_name: site.to_string(),
        site_url: format!("https://{}.com/u", site.to_lowercase()),
        username: "u".to_string(),
        details: ProfileDetails {
            display_name: name.map(|s| s.to_string()),
            bio: bio.map(|s| s.to_string()),
            joined_date: Some("2020-05-05".to_string()),
            ..Default::default()
        },
        avatar_phash: None,
    }
}

fn score_line(confidence: u32) -> Vec<Piece> {
    let c = build_identity_cluster(vec![profile("GitHub", Some("Bob"), None), profile("Reddit", Some("Bob"), None)]);
    let lines = investigative_report_lines(Some(&c), confidence, None, &[], "bob");
    lines.into_iter().find(|l| flat(l).contains("CONFIDENCE SCORE:")).unwrap()
}

#[test]
fn domain_report_shape() {
    let info = DomainInfo {
        domain: "bob.dev".to_string(),
        resolves: true,
        a_records: vec!["1.2.3.4".to_string(), "5.6.7.8".to_string()],
        mx_records: vec!["mx.bob.dev".to_string()],
        homepage_title: Some("Bob".to_string()),
        homepage_description: Some("d".repeat(250)),
        whois: Some("Registrar: X\r\nCreated: 2001\n".to_string()),
        error: Some("timeout".to_string()),
        pages: DomainPages {
            pages: vec![DomainPage {
                path: "/about".to_string(),
                title: None,
                description: None,
                emails: vec!["a@bob.dev".to_string(), "b@bob.dev".to_string()],
                phones: vec![],
                social_links: vec![
                    "GitHub: https://github.com/bob".to_string(),
                    "Twitter".to_string(),
                    "Mastodon: x".to_string(),
                    "Reddit: y".to_string(),
                ],
                text_preview: None,
            }],
        },
        ..Default::default()
    };
    let lines = domain_report_lines(&info);
    let desc = format!("  ├─ Description:  {}", "d".repeat(120));
    let expected = vec![
        "".to_string(),
        RULE.to_string(),
        "  DOMAIN  ── bob.dev".to_string(),
        RULE.to_string(),
        "  ├─ A Records:  1.2.3.4, 5.6.7.8".to_string(),
        "  ├─ MX Records:  mx.bob.dev".to_string(),
        "  ├─ Homepage Title:  Bob".to_string(),
        desc,
        "  ├─ WHOIS:".to_string(),
        "  │   Registrar: X".to_string(),
        "  │   Created: 2001".to_string(),
        "  └─ Error:  timeout".to_string(),
        "  ├─ PAGES SCRAPED:".to_string(),
        "  │   /about  ?".to_string(),
        "  │     └ emails: a@bob.dev, b@bob.dev".to_string(),
        "  │     └ social: GitHub, Twitter, Mastodon".to_string(),
        RULE.to_string(),
        "".to_string(),
    ];
    assert_eq!(texts(&lines), expected);
    assert_eq!(tone_of(&lines[11], "timeout"), Some(Tone::Bad));
    assert_eq!(tone_of(&lines[2], "DOMAIN"), Some(Tone::AccentBold));
    assert_eq!(RULE.chars().count(), 64);
}

#[test]
fn domain_report_of_a_bare_domain() {
    let info = DomainInfo { domain: "x.com".to_string(), ..Default::default() };
    let lines = domain_report_lines(&info);
    assert_eq!(texts(&lines), vec!["".to_string(), RULE.to_string(), "  DOMAIN  ── x.com".to_string(), RULE.to_string(), RULE.to_string(), "".to_string()]);
}

#[test]
fn score_bar_rounds_to_the_nearest_square() {
    let bar = |c: u32| {
        let l = score_line(c);
        let filled = l.iter().find_map(|p| match p {
            Piece::Text { text, tone: Tone::Good } => Some(text.chars().count()),
            _ => None,
        });
        (filled.unwrap(), flat(&l).chars().filter(|ch| *ch == '░').count())
    };
    assert_eq!(bar(0), (0, 20));
    assert_eq!(bar(2), (0, 20));
    assert_eq!(bar(3), (1, 19));
    assert_eq!(bar(73), (15, 5));
    assert_eq!(bar(100), (20, 0));
}

#[test]
fn score_verdicts() {
    let verdict = |c: u32| score_line(c).last().map(|p| match p {
        Piece::Text { text, tone } => (text.clone(), *tone),
        Piece::Percent(_) => (String::new(), Tone::Plain),
    }).unwrap();
    assert_eq!(verdict(80), ("HIGH".to_string(), Tone::GoodBold));
    assert_eq!(verdict(79), ("MEDIUM".to_string(), Tone::WarnBold));
    assert_eq!(verdict(60), ("MEDIUM".to_string(), Tone::WarnBold));
    assert_eq!(verdict(40), ("LOW".to_string(), Tone::WarnBold));
    assert_eq!(verdict(39), ("VERY LOW".to_string(), Tone::BadBold));
    assert_eq!(flat(&score_line(73)), format!("  CONFIDENCE SCORE:  73 / 100  [{}{}] MEDIUM", "▓".repeat(15), "░".repeat(5)));
}

#[test]
fn identity_block_lines() {
    let mut c = build_identity_cluster(vec![profile("GitHub", Some("Bob"), None), profile("Reddit", Some("Bob"), None)]);
    c.shared_signals = vec![
        Signal::SameAvatar { site_a: "A".to_string(), site_b: "B".to_string(), hash_distance: 3 },
        Signal::SameBio { similarity: Ratio { num: 3, den: 4 } },
    ];
    let profiles = vec![profile("GitHub", Some("Bob"), None), profile("Reddit", Some("Bob"), None), profile("X", None, None)];
    let lines = texts(&investigative_report_lines(Some(&c), 50, None, &profiles, "bob"));
    assert_eq!(lines[2], "  OSINT REPORT  ── bob");
    assert_eq!(lines[5], format!("  IDENTITY  {}", "─".repeat(50)));
    assert_eq!(lines[6], "  ├─ Inferred Name:  Bob  (seen on 2/3 platforms)");
    assert_eq!(lines[7], "  ├─ Inferred Location:  Unknown");
    assert_eq!(lines[8], "  ├─ Emails:  —");
    assert_eq!(lines[9], "  ├─ Phones:  —");
    assert!(lines.contains(&format!("  SIGNALS DETECTED  {}", "─".repeat(46))));
    assert!(lines.contains(&"  ├─ Same avatar:  A ↔ B  (distance: 3)".to_string()));
    assert!(lines.contains(&"  ├─ Bio similarity:  <3/4>%".to_string()));
    assert!(!lines.iter().any(|l| l.contains("PROFILES")));
}

#[test]
fn profiles_listed_without_cluster() {
    let profiles = vec![profile("GitHub", Some("Bob"), Some("hi")), profile("X", None, None)];
    let now = Timestamp { secs: 1_700_000_000, nanos: 0 };
    let t = build_timeline_at(&profiles, now);
    let lines = texts(&investigative_report_lines(None, 0, Some(&t), &profiles, "bob"));
    assert!(lines.contains(&format!("  TIMELINE  {}", "─".repeat(52))));
    assert!(lines.contains(&"  ├─ 2020  GitHub, X".to_string()));
    assert!(lines.contains(&"  └─ Digital footprint:  3 years".to_string()));
    assert!(lines.contains(&"  ├─ GitHub  Bob  (https://github.com/u)".to_string()));
    assert!(lines.contains(&"  │   Bio: hi".to_string()));
    assert!(lines.contains(&"  ├─ X  ?  (https://x.com/u)".to_string()));
    assert_eq!(lines.iter().filter(|l| l.contains("Bio:")).count(), 1);
}

#[test]
fn empty_report_is_heading_and_rule() {
    let lines = texts(&investigative_report_lines(None, 0, None, &[], "bob"));
    assert_eq!(lines, vec!["".to_string(), RULE.to_string(), "  OSINT REPORT  ── bob".to_string(), RULE.to_string(), RULE.to_string(), "".to_string()]);
}
