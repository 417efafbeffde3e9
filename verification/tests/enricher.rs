use raven::enricher::{
    api_url, api_user_agent, apply_devto, apply_github, apply_hackernews, apply_keybase, apply_reddit, enrich_api,
    DevToUser, EnrichApi, GithubUser, HackerNewsUser, KeybaseProof, KeybaseUser, RedditAbout,
};
use raven::types::ProfileDetails;

fn extra(p: &ProfileDetails, k: &str) -> Option<String> {
    p.extra.iter().find(|(key, _)| key == k).map(|(_, v)| v.clone())
}

#[test]
fn apis_by_site_name() {
    assert_eq!(enrich_api("GitHub"), Some(EnrichApi::GitHub));
    assert_eq!(enrich_api("Reddit"), Some(EnrichApi::Reddit));
    assert_eq!(enrich_api("HackerNews"), Some(EnrichApi::HackerNews));
    assert_eq!(enrich_api("Dev.to"), Some(EnrichApi::DevTo));
    assert_eq!(enrich_api("Keybase"), Some(EnrichApi::Keybase));
    assert_eq!(enrich_api("github"), None);
    assert_eq!(enrich_api("Twitter"), None);
}

#[test]
fn api_addresses() {
    assert_eq!(api_url(EnrichApi::GitHub, "bob"), "https://api.github.com/users/bob");
    assert_eq!(api_url(EnrichApi::Reddit, "bob"), "https://www.reddit.com/user/bob/about.json");
    assert_eq!(api_url(EnrichApi::HackerNews, "bob"), "https://hacker-news.firebaseio.com/v0/user/bob.json");
    assert_eq!(api_url(EnrichApi::DevTo, "bob"), "https://dev.to/api/users/by_username?url=bob");
    assert_eq!(api_url(EnrichApi::Keybase, "bob"), "https://keybase.io/_/api/1.0/user/lookup.json?usernames=bob");
    assert_eq!(api_user_agent(EnrichApi::GitHub), Some("raven-osint".to_string()));
    assert_eq!(api_user_agent(EnrichApi::DevTo), Some("raven-osint/1.0".to_string()));
    assert_eq!(api_user_agent(EnrichApi::Keybase), None);
}

#[test]
fn github_record_overrides_page() {
    let mut p = ProfileDetails {
        display_name: Some("Scraped".to_string()),
        website: Some("https://old.example".to_string()),
        emails: vec!["a@b.c".to_string()],
        ..Default::default()
    };
    let data = GithubUser {
        name: Some("Real Name".to_string()),
        bio: None,
        location: Some("Berlin".to_string()),
        blog: Some(String::new()),
        followers: Some(12),
        following: None,
        created_at: Some("2015-03-04T00:00:00Z".to_string()),
        avatar_url: None,
        email: Some("a@b.c".to_string()),
        public_repos: Some(42),
        public_gists: None,
    };
    apply_github(&mut p, &data);
    assert_eq!(p.display_name, Some("Real Name".to_string()));
    assert_eq!(p.location, Some("Berlin".to_string()));
    assert_eq!(p.website, Some("https://old.example".to_string()));
    assert_eq!(p.followers, Some("12".to_string()));
    assert_eq!(p.following, None);
    assert_eq!(p.joined_date, Some("2015-03-04T00:00:00Z".to_string()));
    assert_eq!(p.emails, vec!["a@b.c".to_string()]);
    assert_eq!(extra(&p, "public_repos"), Some("42".to_string()));
    assert_eq!(extra(&p, "public_gists"), Some("0".to_string()));
}

#[test]
fn github_adds_new_email_once() {
    let mut p = ProfileDetails::default();
    let data = GithubUser {
        name: None, bio: None, location: None, blog: Some("https://blog".to_string()), followers: None,
        following: Some(3), created_at: None, avatar_url: None, email: Some("x@y.z".to_string()),
        public_repos: None, public_gists: Some(7),
    };
    apply_github(&mut p, &data);
    apply_github(&mut p, &data);
    assert_eq!(p.emails, vec!["x@y.z".to_string()]);
    assert_eq!(p.website, Some("https://blog".to_string()));
    assert_eq!(p.following, Some("3".to_string()));
    assert_eq!(p.extra.len(), 2);
    assert_eq!(extra(&p, "public_gists"), Some("7".to_string()));
}

#[test]
fn reddit_record() {
    let mut p = ProfileDetails::default();
    let data = RedditAbout {
        icon_img: Some("https://styles.redditmedia.com/a.png?width=256&s=abc".to_string()),
        created_utc: Some(86400),
        link_karma: Some(-5),
        comment_karma: None,
        is_employee: Some(false),
    };
    apply_reddit(&mut p, &data);
    assert_eq!(p.avatar_url, Some("https://styles.redditmedia.com/a.png".to_string()));
    assert_eq!(p.joined_date, Some("1970-01-02".to_string()));
    assert_eq!(extra(&p, "link_karma"), Some("-5".to_string()));
    assert_eq!(extra(&p, "comment_karma"), Some("0".to_string()));
    assert_eq!(p.verified, Some(false));
}

#[test]
fn reddit_empty_icon_keeps_avatar() {
    let mut p = ProfileDetails { avatar_url: Some("kept".to_string()), ..Default::default() };
    let data = RedditAbout { icon_img: Some(String::new()), created_utc: None, link_karma: None, comment_karma: None, is_employee: None };
    apply_reddit(&mut p, &data);
    assert_eq!(p.avatar_url, Some("kept".to_string()));
    assert_eq!(p.verified, None);
}

#[test]
fn hackernews_record() {
    let mut p = ProfileDetails::default();
    let data = HackerNewsUser { about: Some("hi".to_string()), created: Some(1_000_000_000), karma: Some(1234) };
    apply_hackernews(&mut p, &data);
    assert_eq!(p.bio, Some("hi".to_string()));
    assert_eq!(p.joined_date, Some("2001-09-09".to_string()));
    assert_eq!(extra(&p, "karma"), Some("1234".to_string()));
}

#[test]
fn devto_record() {
    let mut p = ProfileDetails::default();
    let data = DevToUser {
        name: Some("Ann".to_string()),
        summary: Some("writer".to_string()),
        location: None,
        joined_at: Some("Jan 1, 2020".to_string()),
        profile_image: Some("https://img".to_string()),
        website_url: Some("https://ann.dev".to_string()),
        followers_count: Some(0),
        github_username: Some("ann-gh".to_string()),
        twitter_username: None,
    };
    apply_devto(&mut p, &data);
    assert_eq!(p.display_name, Some("Ann".to_string()));
    assert_eq!(p.bio, Some("writer".to_string()));
    assert_eq!(p.website, Some("https://ann.dev".to_string()));
    assert_eq!(p.followers, Some("0".to_string()));
    assert_eq!(extra(&p, "github_username"), Some("ann-gh".to_string()));
    assert_eq!(extra(&p, "twitter_username"), Some(String::new()));
}

#[test]
fn keybase_proofs() {
    let mut p = ProfileDetails::default();
    let them = Some(KeybaseUser {
        proofs: Some(vec![
            KeybaseProof { proof_type: Some("github".to_string()), service_url: Some("https://github.com/ann".to_string()) },
            KeybaseProof { proof_type: None, service_url: Some("https://ignored".to_string()) },
            KeybaseProof { proof_type: Some("twitter".to_string()), service_url: Some("https://twitter.com/ann".to_string()) },
        ]),
        picture: Some("https://pic".to_string()),
    });
    apply_keybase(&mut p, &them);
    assert_eq!(p.linked_urls, vec!["https://github.com/ann".to_string(), "https://twitter.com/ann".to_string()]);
    assert_eq!(extra(&p, "keybase_proof_github"), Some("https://github.com/ann".to_string()));
    assert_eq!(extra(&p, "keybase_proof_twitter"), Some("https://twitter.com/ann".to_string()));
    assert_eq!(p.avatar_url, Some("https://pic".to_string()));
    let mut q = ProfileDetails::default();
    apply_keybase(&mut q, &None);
    assert!(q.linked_urls.is_empty() && q.extra.is_empty() && q.avatar_url.is_none());
}
