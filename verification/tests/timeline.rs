use raven::timeline::{build_timeline, build_timeline_at, parse_date, parse_i32, Timestamp};
use raven::types::{ClaimedProfile, ProfileDetails};

fn make_profile_with_date(site: &str, date: Option<&str>) -> ClaimedProfile {
    ClaimedProfile {
        site_name: site.to_string(),
        site_url: format!("https://{site}.com/user"),
        username: "test".to_string(),
        details: ProfileDetails {
            joined_date: date.map(|s| s.to_string()),
            ..Default::default()
        },
        avatar_phash: None,
    }
}

#[test]
fn test_build_timeline_empty() {
    let t = build_timeline(&[]);
    assert!(t.entries.is_empty());
    assert!(t.earliest_account.is_none());
}

#[test]
fn test_build_timeline_single() {
    let p = make_profile_with_date("GitHub", Some("2020-01-01"));
    let t = build_timeline(&[p]);
    assert_eq!(t.entries.len(), 1);
    assert!(t.earliest_account.is_some());
}

#[test]
fn test_build_timeline_sorting() {
    let p1 = make_profile_with_date("Reddit", Some("2022-01-01"));
    let p2 = make_profile_with_date("GitHub", Some("2020-01-01"));
    let t = build_timeline(&[p1, p2]);
    assert_eq!(t.entries[0].site_name, "GitHub");
    assert_eq!(t.entries[1].site_name, "Reddit");
}

#[test]
fn test_build_timeline_by_year() {
    let p1 = make_profile_with_date("GitHub", Some("2020-06-01"));
    let p2 = make_profile_with_date("Reddit", Some("2022-03-15"));
    let t = build_timeline(&[p1, p2]);
    assert!(t.platforms_by_year.iter().any(|(y, _)| y == "2020"));
    assert!(t.platforms_by_year.iter().any(|(y, _)| y == "2022"));
}

#[test]
fn test_parse_date_rfc3339() {
    let d = parse_date("2020-01-15T10:30:00Z");
    assert!(d.is_some());
}

#[test]
fn test_parse_date_ymd() {
    let d = parse_date("2020-01-15");
    assert!(d.is_some());
}

#[test]
fn test_parse_date_year_only() {
    let d = parse_date("2020");
    assert!(d.is_some());
}

#[test]
fn test_parse_date_invalid() {
    let d = parse_date("not-a-date");
    assert!(d.is_none());
}

#[test]
fn test_footprint_years() {
    let p = make_profile_with_date("GitHub", Some("2018-01-01"));
    let t = build_timeline(&[p]);
    assert!(t.digital_footprint_years.is_some());
    assert!(t.digital_footprint_years.unwrap() >= 6);
}

#[test]
fn parse_date_exact_instants() {
    assert_eq!(parse_date("1970-01-02"), Some(Timestamp { secs: 86400, nanos: 0 }));
    assert_eq!(parse_date("2020-01-15T10:30:00Z"), Some(Timestamp { secs: 1579084200, nanos: 0 }));
    assert_eq!(parse_date("1971"), Some(Timestamp { secs: 31536000, nanos: 0 }));
    assert_eq!(parse_date("2020-01-15T10:30:00"), Some(Timestamp { secs: 1579046400, nanos: 0 }));
}

#[test]
fn parse_i32_cases() {
    assert_eq!(parse_i32("2020"), Some(2020));
    assert_eq!(parse_i32("-7"), Some(-7));
    assert_eq!(parse_i32("+7"), Some(7));
    assert_eq!(parse_i32("2147483647"), Some(2147483647));
    assert_eq!(parse_i32("-2147483648"), Some(-2147483648));
    assert_eq!(parse_i32("2147483648"), None);
    assert_eq!(parse_i32(""), None);
    assert_eq!(parse_i32("-"), None);
    assert_eq!(parse_i32("12a"), None);
}

#[test]
fn footprint_counted_to_given_instant() {
    let p = make_profile_with_date("GitHub", Some("1970-01-01"));
    // 730 days later: two whole years
    let t = build_timeline_at(&[p], Timestamp { secs: 730 * 86400, nanos: 0 });
    assert_eq!(t.digital_footprint_years, Some(2));
    let p = make_profile_with_date("GitHub", Some("1970-01-01"));
    let t = build_timeline_at(&[p], Timestamp { secs: 729 * 86400, nanos: 0 });
    assert_eq!(t.digital_footprint_years, Some(1));
}

#[test]
fn undated_entries_come_first_and_stable_order() {
    let p1 = make_profile_with_date("A", Some("2021"));
    let p2 = make_profile_with_date("B", Some("garbage"));
    let p3 = make_profile_with_date("C", Some("2021-01-01"));
    let p4 = make_profile_with_date("D", None);
    let t = build_timeline(&[p1, p2, p3, p4]);
    let names: Vec<&str> = t.entries.iter().map(|e| e.site_name.as_str()).collect();
    assert_eq!(names, vec!["B", "A", "C"]);
    // the earliest entry has no instant, so no footprint is counted
    assert_eq!(t.earliest_account.as_ref().map(|e| e.site_name.as_str()), Some("B"));
    assert_eq!(t.digital_footprint_years, None);
    assert_eq!(t.platforms_by_year.len(), 1);
    assert_eq!(t.platforms_by_year[0].0, "2021");
    assert_eq!(t.platforms_by_year[0].1, vec!["A".to_string(), "C".to_string()]);
}

#[test]
fn years_sorted_as_text() {
    let p1 = make_profile_with_date("A", Some("2022-01-01"));
    let p2 = make_profile_with_date("B", Some("2019-05-05"));
    let p3 = make_profile_with_date("C", Some("2020-05-05"));
    let t = build_timeline(&[p1, p2, p3]);
    let years: Vec<&str> = t.platforms_by_year.iter().map(|(y, _)| y.as_str()).collect();
    assert_eq!(years, vec!["2019", "2020", "2022"]);
}

#[test]
fn year_starts_follow_the_gregorian_calendar() {
    assert_eq!(parse_date("1600"), Some(Timestamp { secs: -11676096000, nanos: 0 }));
    assert_eq!(parse_date("0"), Some(Timestamp { secs: -62167219200, nanos: 0 }));
    assert_eq!(parse_date("2000"), Some(Timestamp { secs: 946684800, nanos: 0 }));
    assert_eq!(parse_date("300000"), None);
}
