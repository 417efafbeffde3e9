use raven::domain::{
    add_address_records, build_domain_page, candidate_domains, extract_page_metadata, extract_text_preview, homepage_url, lookup_target,
    page_targets, parse_dig_output, record_homepage, summarize_whois, DomainInfo, RecordKind,
};

#[test]
fn candidates_in_order() {
    let c = candidate_domains("bob");
    assert_eq!(c.len(), 29);
    assert_eq!(c[0], "bob.com");
    assert_eq!(c[1], "bob.dev");
    assert_eq!(c[28], "bob.au");
}

#[test]
fn targets_of_a_domain() {
    assert_eq!(lookup_target("bob.dev"), "bob.dev:80");
    assert_eq!(homepage_url("bob.dev"), "https://bob.dev");
    let t = page_targets("bob.dev");
    assert_eq!(t.len(), 10);
    assert_eq!(t[0], ("/about".to_string(), "https://bob.dev/about".to_string()));
    assert_eq!(t[9], ("/links".to_string(), "https://bob.dev/links".to_string()));
}

#[test]
fn page_metadata() {
    let mut title = None;
    let mut desc = Some("old".to_string());
    extract_page_metadata("<html><title> Hello </title><meta content=\"About me\" name=\"description\"></html>", &mut title, &mut desc);
    assert_eq!(title, Some("Hello".to_string()));
    assert_eq!(desc, Some("About me".to_string()));
    // the value is read from the tag that holds the name, wherever it stands
    let mut t2 = None;
    let mut d2 = Some("old".to_string());
    extract_page_metadata("<meta name=\"description\" content=\"Hi\">", &mut t2, &mut d2);
    assert_eq!(t2, None);
    assert_eq!(d2, Some("Hi".to_string()));
    let mut t3 = None;
    let mut d3 = None;
    extract_page_metadata("<meta content=\"Other\" name=\"keywords\"><meta name=\"description\">", &mut t3, &mut d3);
    assert_eq!(d3, None);
    let mut d4 = None;
    extract_page_metadata("<meta content=\"Other\" name=\"keywords\"><meta name='description' content=\"Mine\">", &mut t3, &mut d4);
    assert_eq!(d4, Some("Mine".to_string()));
}

#[test]
fn homepage_failure_is_recorded() {
    let mut info = DomainInfo::default();
    record_homepage(&mut info, Err("timed out".to_string()));
    assert_eq!(info.error, Some("Failed to fetch homepage: timed out".to_string()));
    let mut ok = DomainInfo::default();
    record_homepage(&mut ok, Ok("<title>Site</title>".to_string()));
    assert_eq!(ok.homepage_title, Some("Site".to_string()));
    assert_eq!(ok.error, None);
}

#[test]
fn dig_output_is_cleaned() {
    assert_eq!(parse_dig_output("10 mx.example.com.\n\n 20 mx2.example.com. \n", RecordKind::Mx), vec!["10 mx.example.com.".to_string(), "20 mx2.example.com.".to_string()]);
    assert_eq!(parse_dig_output("\"v=spf1 -all\"\n", RecordKind::Txt), vec!["v=spf1 -all".to_string()]);
    assert_eq!(parse_dig_output("ns1.example.com.\n", RecordKind::Ns), vec!["ns1.example.com".to_string()]);
}

#[test]
fn addresses_split_by_family() {
    let mut info = DomainInfo::default();
    let ips = vec!["1.2.3.4".to_string(), "::1".to_string(), "1.2.3.4".to_string()];
    add_address_records(&mut info, &ips);
    assert_eq!(info.a_records, vec!["1.2.3.4".to_string()]);
    assert_eq!(info.aaaa_records, vec!["::1".to_string()]);
}

#[test]
fn short_pages_are_skipped() {
    assert!(build_domain_page("/about", "tiny").is_none());
    let body = "<html><head><title>About</title></head><body>Write to me at me@example.org any time you like, please.</body></html>";
    let page = build_domain_page("/about", body).unwrap();
    assert_eq!(page.path, "/about");
    assert_eq!(page.title, Some("About".to_string()));
    assert!(page.emails.contains(&"me@example.org".to_string()));
}

#[test]
fn whois_summary_keeps_known_fields() {
    let raw = "Domain Name: EXAMPLE.COM\nRegistrar: Example Registrar\nCreation Date: 2000-01-01\nSomething else: x\n";
    let s = summarize_whois(raw);
    assert!(s.contains("Registrar: Example Registrar"));
    assert!(s.contains("Creation Date: 2000-01-01"));
    assert!(!s.contains("Something else"));
}

#[test]
fn text_preview_picks_first_substantial_sentences() {
    let html = "<html><head><style>p { color: red; }</style></head><body><p>Hello there friend. This is a long enough sentence to be picked up by the preview logic here! More text follows.</p></body></html>";
    assert_eq!(
        extract_text_preview(html),
        Some("Hello there friend.  This is a long enough sentence to be picked up by the preview logic here".to_string())
    );
    assert_eq!(extract_text_preview("<p>too short</p>"), None);
}
