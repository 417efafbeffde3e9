use raven::identity::{
    build_identity_cluster, cluster_fits, confidence_factors, find_similar_bios, jaccard_similarity, mode_str, Ratio, Signal,
};
use raven::types::{ClaimedProfile, ProfileDetails};

fn make_profile(site: &str, name: Option<&str>, bio: Option<&str>) -> ClaimedProfile {
    ClaimedProfile {
        site_name: site.to_string(),
        site_url: format!("https://{site}.com/user"),
        username: "test".to_string(),
        details: ProfileDetails {
            display_name: name.map(|s| s.to_string()),
            bio: bio.map(|s| s.to_string()),
            ..Default::default()
        },
        avatar_phash: None,
    }
}

fn ratio_value(r: &Ratio) -> f64 {
    r.num as f64 / r.den as f64
}

#[test]
fn test_jaccard_identical() {
    assert!((ratio_value(&jaccard_similarity("hello world", "hello world")) - 1.0).abs() < 0.01);
}

#[test]
fn test_jaccard_empty() {
    assert_eq!(ratio_value(&jaccard_similarity("", "hello")), 0.0);
}

#[test]
fn test_jaccard_partial() {
    let sim = ratio_value(&jaccard_similarity("I like rust", "I like python"));
    assert!(sim > 0.0 && sim < 1.0);
}

#[test]
fn test_jaccard_no_overlap() {
    assert_eq!(ratio_value(&jaccard_similarity("abc def", "ghi jkl")), 0.0);
}

#[test]
fn test_find_similar_bios() {
    let p1 = make_profile("GitHub", None, Some("Software developer from London"));
    let p2 = make_profile("Reddit", None, Some("Software developer from London"));
    let similar = find_similar_bios(&[p1, p2], Ratio { num: 1, den: 2 });
    assert!(!similar.is_empty());
}

#[test]
fn test_find_similar_bios_no_match() {
    let p1 = make_profile("GitHub", None, Some("I like cats"));
    let p2 = make_profile("Reddit", None, Some("I like dogs"));
    let similar = find_similar_bios(&[p1, p2], Ratio { num: 4, den: 5 });
    assert!(similar.is_empty());
}

#[test]
fn test_mode_str() {
    assert_eq!(mode_str(&["a", "b", "a"]), "a");
}

#[test]
fn test_mode_str_empty() {
    assert_eq!(mode_str(&[]), "");
}

#[test]
fn test_build_cluster_no_signals() {
    let p = make_profile("GitHub", None, None);
    let cluster = build_identity_cluster(vec![p]);
    assert!(cluster.shared_signals.is_empty());
}

#[test]
fn test_build_cluster_name_signal() {
    let p1 = make_profile("GitHub", Some("John"), None);
    let p2 = make_profile("Reddit", Some("John"), None);
    let cluster = build_identity_cluster(vec![p1, p2]);
    let has_name = cluster.shared_signals.iter().any(|s| matches!(s, Signal::SameName(_)));
    assert!(has_name);
}

#[test]
fn jaccard_counts_long_lowercase_words() {
    // words of three or more bytes: {software, developer} vs {software, engineer}
    let r = jaccard_similarity("Software developer", "software ENGINEER at");
    assert_eq!((r.num, r.den), (1, 3));
}

#[test]
fn jaccard_is_symmetric_on_example() {
    let a = jaccard_similarity("rust and go", "go and python and rust");
    let b = jaccard_similarity("go and python and rust", "rust and go");
    assert_eq!((a.num, a.den), (b.num, b.den));
}

#[test]
fn mode_str_ties_go_to_first_seen() {
    assert_eq!(mode_str(&["b", "a", "a", "b"]), "b");
    assert_eq!(mode_str(&["x"]), "x");
}

#[test]
fn confidence_factors_count_matches() {
    let p1 = make_profile("GitHub", Some("John"), None);
    let p2 = make_profile("Reddit", Some("John"), None);
    let p3 = make_profile("Dev.to", Some("Jane"), None);
    let f = confidence_factors(&[p1, p2, p3]);
    assert_eq!(f.profile_count, 3);
    assert_eq!(f.name_count, 3);
    assert_eq!(f.name_matches, 2);
}

#[test]
fn confidence_factors_empty() {
    let f = confidence_factors(&[]);
    assert_eq!(f.profile_count, 0);
    assert_eq!(f.name_count, 0);
}

#[test]
fn similar_bios_with_a_wide_threshold() {
    let p1 = make_profile("GitHub", None, Some("Software developer from London"));
    let p2 = make_profile("Reddit", None, Some("Software developer from London"));
    let p3 = make_profile("Dev.to", None, Some("Software developer from Paris"));
    let half = Ratio { num: 1u128 << 100, den: 1u128 << 101 };
    let similar = find_similar_bios(&[p1, p2, p3], half);
    // identical bios, and {software, developer, from} of four words each way
    assert_eq!(similar.len(), 3);
    let strict = Ratio { num: u128::MAX - 1, den: u128::MAX };
    let p1 = make_profile("GitHub", None, Some("Software developer from London"));
    let p2 = make_profile("Reddit", None, Some("Software developer from London"));
    assert_eq!(find_similar_bios(&[p1, p2], strict).len(), 1);
}

#[test]
fn cluster_counts_fit() {
    let p = make_profile("GitHub", Some("John"), None);
    assert!(cluster_fits(&[p]));
    assert!(cluster_fits(&[]));
}
