use raven::search::{claimed_sites, merge_variant_results, performance_stats, recount};
use raven::types::{QueryResult, QueryStatus, SearchResults};

fn answer(user: &str, site: &str, status: QueryStatus, ms: Option<u64>) -> QueryResult {
    QueryResult {
        username: user.to_string(),
        site_name: site.to_string(),
        site_url_user: format!("https://{}/{}", site.to_lowercase(), user),
        status,
        query_time_ms: ms,
    }
}

fn results(user: &str, rs: Vec<QueryResult>) -> SearchResults {
    let mut r = SearchResults {
        username: user.to_string(),
        results: rs,
        total_sites: 0,
        claimed_count: 0,
        available_count: 0,
        unknown_count: 0,
        illegal_count: 0,
        waf_count: 0,
        timestamp: "2024-01-01 00:00:00".to_string(),
    };
    recount(&mut r);
    r
}

#[test]
fn recount_counts_each_status() {
    let r = results("a", vec![
        answer("a", "GitHub", QueryStatus::Claimed, None),
        answer("a", "Reddit", QueryStatus::Available, None),
        answer("a", "X", QueryStatus::Claimed, None),
        answer("a", "Y", QueryStatus::Waf, None),
    ]);
    assert_eq!((r.total_sites, r.claimed_count, r.available_count, r.unknown_count, r.illegal_count, r.waf_count), (4, 2, 1, 0, 0, 1));
}

#[test]
fn merging_variant_answers_skips_known_accounts() {
    let mut all = results("bob", vec![answer("bob", "GitHub", QueryStatus::Claimed, None)]);
    let extra = vec![
        answer("bob", "GitHub", QueryStatus::Available, None),
        answer("bob_", "GitHub", QueryStatus::Claimed, None),
        answer("bob_", "GitHub", QueryStatus::Unknown, None),
        answer("bob_", "Reddit", QueryStatus::Illegal, None),
    ];
    merge_variant_results(&mut all, extra);
    let keys: Vec<(String, String)> = all.results.iter().map(|r| (r.username.clone(), r.site_name.clone())).collect();
    assert_eq!(keys, vec![
        ("bob".to_string(), "GitHub".to_string()),
        ("bob_".to_string(), "GitHub".to_string()),
        ("bob_".to_string(), "Reddit".to_string()),
    ]);
    assert_eq!(all.results[1].status, QueryStatus::Claimed);
    assert_eq!((all.total_sites, all.claimed_count, all.illegal_count), (3, 2, 1));
}

#[test]
fn claimed_sites_in_order() {
    let r = results("a", vec![
        answer("a", "GitHub", QueryStatus::Claimed, None),
        answer("a", "Reddit", QueryStatus::Available, None),
        answer("a", "Keybase", QueryStatus::Claimed, None),
    ]);
    assert_eq!(claimed_sites(&r), vec![
        ("GitHub".to_string(), "https://github/a".to_string()),
        ("Keybase".to_string(), "https://keybase/a".to_string()),
    ]);
}

#[test]
fn performance_summary() {
    let a = results("a", vec![
        answer("a", "S1", QueryStatus::Claimed, Some(30)),
        answer("a", "S2", QueryStatus::Claimed, None),
        answer("a", "S3", QueryStatus::Claimed, Some(10)),
    ]);
    let b = results("b", vec![
        answer("b", "S4", QueryStatus::Claimed, Some(10)),
        answer("b", "S5", QueryStatus::Claimed, Some(30)),
    ]);
    let p = performance_stats(&vec![a, b]).unwrap();
    assert_eq!(p.timed, 4);
    assert_eq!(p.total_ms, 80);
    assert_eq!(p.fastest, (10, "S3".to_string()));
    assert_eq!(p.slowest, (30, "S5".to_string()));
    let none = results("c", vec![answer("c", "S", QueryStatus::Unknown, None)]);
    assert!(performance_stats(&vec![none]).is_none());
    assert!(performance_stats(&vec![]).is_none());
}
