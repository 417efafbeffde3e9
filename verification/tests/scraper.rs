use raven::scraper::{extract_emails, extract_phones, extract_urls, og, meta, css_text, css_attr, profile_from_html};

#[test]
fn test_extract_emails_finds_email() {
    let emails = extract_emails("Contact: test@example.com");
    assert!(emails.contains(&"test@example.com".to_string()));
}

#[test]
fn test_extract_emails_empty() {
    let emails = extract_emails("no emails here");
    assert!(emails.is_empty());
}

#[test]
fn test_extract_phones_finds_number() {
    let phones = extract_phones("Call +1-555-123-4567");
    assert!(!phones.is_empty());
}

#[test]
fn test_extract_urls_finds_https() {
    let urls = extract_urls("Visit https://example.com/path");
    assert!(urls.contains(&"https://example.com/path".to_string()));
}

#[test]
fn test_extract_urls_no_duplicates() {
    let urls = extract_urls("https://a.com https://a.com");
    assert_eq!(urls.len(), 1);
}

#[test]
fn emails_keep_first_occurrence_order() {
    let emails = extract_emails("b@x.org then a@y.com then b@x.org");
    assert_eq!(emails, vec!["b@x.org".to_string(), "a@y.com".to_string()]);
}

#[test]
fn meta_tags_are_read() {
    let html = r#"<html><head><meta property="og:title" content="Alice"><meta name="description" content="Hi there"><title>T</title></head><body><div class="bio">Dev</div><img class="pic" src="/a.png"></body></html>"#;
    assert_eq!(og(html, "og:title"), Some("Alice".to_string()));
    assert_eq!(meta(html, "description"), Some("Hi there".to_string()));
    assert_eq!(css_text(html, "div.bio"), Some("Dev".to_string()));
    assert_eq!(css_attr(html, "img.pic", "src"), Some("/a.png".to_string()));
    assert_eq!(og(html, "og:image"), None);
}

#[test]
fn profile_from_page_without_selectors() {
    let html = r#"<html><head><meta property="og:title" content="Alice"><meta property="og:description" content="Mail me: alice@example.com"></head><body></body></html>"#;
    let d = profile_from_html(html, None);
    assert_eq!(d.display_name, Some("Alice".to_string()));
    assert!(d.emails.contains(&"alice@example.com".to_string()));
}
