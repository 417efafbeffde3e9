use raven::graph::build_account_graph;
use raven::html_report::{
    claimed_rows, cluster_section, domain_section, generate_html_report, join_strings, profile_cards,
    similarity_section, timeline_section, HtmlReporter,
};
use raven::identity::build_identity_cluster;
use raven::report::html_escape;
use raven::timeline::build_timeline;
use raven::domain::{DomainInfo, DomainPage};
use raven::types::{ClaimedProfile, ProfileDetails, QueryResult, QueryStatus, SearchResults};

fn profile(site: &str, name: Option<&str>) -> ClaimedProfile {
    ClaimedProfile {
        site_name: site.to_string(),
        site_url: format!("https://{}.com/u", site.to_lowercase()),
        username: "u".to_string(),
        details: ProfileDetails {
            display_name: name.map(|s| s.to_string()),
            joined_date: Some("2020-05-05".to_string()),
            ..Default::default()
        },
        avatar_phash: None,
    }
}

fn search() -> SearchResults {
    SearchResults {
        username: "u".to_string(),
        results: vec![
            QueryResult { username: "u".to_string(), site_name: "Git<Hub>".to_string(), site_url_user: "https://github.com/u".to_string(), status: QueryStatus::Claimed, query_time_ms: Some(5) },
            QueryResult { username: "u".to_string(), site_name: "Reddit".to_string(), site_url_user: "https://reddit.com/u".to_string(), status: QueryStatus::Available, query_time_ms: None },
        ],
        total_sites: 2,
        claimed_count: 1,
        available_count: 1,
        unknown_count: 0,
        illegal_count: 0,
        waf_count: 0,
        timestamp: "2024-01-01".to_string(),
    }
}

#[test]
fn escaping_entities() {
    assert_eq!(html_escape("a<b>&\"c'"), "a&lt;b&gt;&amp;&quot;c&#39;");
    assert_eq!(html_escape("&amp;"), "&amp;amp;");
}

#[test]
fn joins() {
    assert_eq!(join_strings(&vec!["a".to_string(), "b".to_string()], ", "), "a, b");
    assert_eq!(join_strings(&vec![], ", "), "");
}

#[test]
fn rows_only_for_claimed_accounts() {
    let r = claimed_rows(&search().results);
    assert!(r.contains("Git&lt;Hub&gt;"));
    assert!(r.contains("href=\"https://github.com/u\""));
    assert!(!r.contains("reddit"));
}

#[test]
fn cards_escape_profile_text() {
    let mut p = profile("GitHub", Some("<b>Bob</b>"));
    p.details.emails = vec!["a@b.c".to_string(), "d@e.f".to_string()];
    let c = profile_cards(&[p]);
    assert!(c.contains("&lt;b&gt;Bob&lt;/b&gt;"));
    assert!(c.contains("a@b.c, d@e.f"));
    assert!(!c.contains("<b>Bob"));
    let q = profile("Reddit", None);
    assert!(profile_cards(&[q]).contains("<span class=\"detail-value\">-</span>"));
}

#[test]
fn empty_sections() {
    assert_eq!(similarity_section(&vec![]), "");
    assert_eq!(timeline_section(None), "");
    assert_eq!(cluster_section(None, 50), "");
    assert_eq!(domain_section(None), "");
    let unresolved = DomainInfo { domain: "x.com".to_string(), ..Default::default() };
    assert_eq!(domain_section(Some(&unresolved)), "");
}

#[test]
fn similarity_cards_show_percent() {
    let s = similarity_section(&vec![("A".to_string(), "B".to_string(), "75".to_string())]);
    assert!(s.contains("width:75%"));
    assert!(s.contains("<span class=\"score-label\">75%</span>"));
    assert!(s.ends_with("</div></div></div></section>"));
}

#[test]
fn cluster_confidence_bands() {
    let c = build_identity_cluster(vec![profile("GitHub", Some("Bob")), profile("Reddit", Some("Bob"))]);
    let s = cluster_section(Some(&c), 85);
    assert!(s.contains("confidence-badge very-high\">85% — Very High"));
    assert!(cluster_section(Some(&c), 60).contains("high\">60% — High"));
    assert!(cluster_section(Some(&c), 40).contains("medium\">40% — Medium"));
    assert!(cluster_section(Some(&c), 20).contains("low\">20% — Low"));
    assert!(cluster_section(Some(&c), 19).contains("very-low\">19% — Very Low"));
}

#[test]
fn timeline_lists_years() {
    let t = build_timeline(&[profile("GitHub", None), profile("Reddit", None)]);
    let s = timeline_section(Some(&t));
    assert!(s.contains("<span class=\"timeline-year\">2020</span>"));
    assert!(s.contains("GitHub, Reddit"));
    assert!(s.contains("2020-05-05 on GitHub"));
}

#[test]
fn domain_profile_rows() {
    let info = DomainInfo {
        domain: "bob.dev".to_string(),
        resolves: true,
        a_records: vec!["1.2.3.4".to_string(), "5.6.7.8".to_string()],
        homepage_description: Some("d".repeat(250)),
        pages: raven::domain::DomainPages {
            pages: vec![DomainPage {
                path: "/about".to_string(),
                title: None,
                description: None,
                emails: vec![],
                phones: vec![],
                social_links: vec!["GitHub: https://github.com/bob".to_string()],
                text_preview: None,
            }],
        },
        ..Default::default()
    };
    let s = domain_section(Some(&info));
    assert!(s.contains("<span class=\"dns-type\">A</span><span class=\"dns-value\">1.2.3.4, 5.6.7.8</span>"));
    assert!(s.contains(&format!("<span class=\"dns-value\">{}</span>", "d".repeat(200))));
    assert!(!s.contains(&"d".repeat(201)));
    assert!(s.contains("Untitled"));
    assert!(s.contains("<div class=\"social-link\">GitHub: https://github.com/bob</div>"));
    assert!(!s.contains("AAAA"));
}

#[test]
fn whole_report() {
    let profiles = vec![profile("GitHub", Some("Bob")), profile("Reddit", Some("Bob"))];
    let cluster = build_identity_cluster(vec![profile("GitHub", Some("Bob")), profile("Reddit", Some("Bob"))]);
    let graph = build_account_graph(&profiles);
    let html = generate_html_report("bob<script>", &search(), &profiles, Some(&cluster), 72, &vec![], None, Some(&graph), None);
    assert!(html.starts_with("<!DOCTYPE html>"));
    assert!(html.contains("<title>Raven OSINT Report — bob&lt;script&gt;</title>"));
    assert!(!html.contains("bob<script>"));
    assert!(html.contains("Account Link Graph"));
    assert!(html.contains("var graphData = {\"links\":[],\"nodes\":["));
    assert!(html.contains("72% — High"));
    assert!(html.contains("Claimed Accounts <span class=\"section-count\">1</span>"));
    assert!(html.ends_with("</html>"));
}

#[test]
fn reporter_collects_then_renders() {
    let mut r = HtmlReporter::new("out.html".to_string());
    r.write_search_start("bob");
    r.set_profiles(vec![profile("GitHub", None)]);
    let html = r.render(&search(), 0, &vec![]);
    assert!(html.contains("raven <span class=\"accent\">// bob</span>"));
    assert!(html.contains("Profile Details"));
    assert!(!html.contains("Identity Summary"));
    assert!(!html.contains("Account Link Graph"));
    assert_eq!(r.path, "out.html");
}
