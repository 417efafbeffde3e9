use raven::graph::{build_account_graph, to_d3_json, to_dot};
use raven::types::{ClaimedProfile, ProfileDetails};

fn make_profile(site: &str, url_suffix: &str, linked_urls: Vec<&str>) -> ClaimedProfile {
    ClaimedProfile {
        site_name: site.to_string(),
        site_url: format!("https://{}.com{}", site.to_lowercase(), url_suffix),
        username: "test".to_string(),
        details: ProfileDetails {
            display_name: Some(site.to_string()),
            linked_urls: linked_urls.iter().map(|s| s.to_string()).collect(),
            ..Default::default()
        },
        avatar_phash: None,
    }
}

#[test]
fn test_build_graph_empty() {
    let g = build_account_graph(&[]);
    assert!(g.nodes.is_empty());
    assert!(g.edges.is_empty());
}

#[test]
fn test_build_graph_no_edges() {
    let p = make_profile("GitHub", "/user", vec![]);
    let g = build_account_graph(&[p]);
    assert_eq!(g.nodes.len(), 1);
    assert!(g.edges.is_empty());
}

#[test]
fn test_build_graph_with_cross_link() {
    let p1 = make_profile("GitHub", "/user", vec!["https://reddit.com/user/test"]);
    let p2 = make_profile("Reddit", "/user", vec![]);
    let g = build_account_graph(&[p1, p2]);
    assert_eq!(g.nodes.len(), 2);
    assert_eq!(g.edges.len(), 1);
    assert_eq!(g.edges[0].from, "GitHub");
    assert_eq!(g.edges[0].to, "Reddit");
}

#[test]
fn test_to_dot_contains_nodes() {
    let p = make_profile("GitHub", "/user", vec![]);
    let g = build_account_graph(&[p]);
    let dot = to_dot(&g);
    assert!(dot.contains("GitHub"));
    assert!(dot.contains("digraph raven"));
}

#[test]
fn graph_edge_label_and_no_self_link() {
    let p1 = make_profile("GitHub", "/user", vec!["https://github.com/user/extra", "https://reddit.com/user/x"]);
    let p2 = make_profile("Reddit", "/user", vec![]);
    let g = build_account_graph(&[p1, p2]);
    assert_eq!(g.edges.len(), 1);
    assert_eq!(g.edges[0].label, "link in bio");
    assert_eq!(g.nodes[0].id, "GitHub");
    assert_eq!(g.nodes[1].url, "https://reddit.com/user");
}

#[test]
fn dot_lists_edges() {
    let p1 = make_profile("GitHub", "/user", vec!["https://reddit.com/user/test"]);
    let p2 = make_profile("Reddit", "/user", vec![]);
    let g = build_account_graph(&[p1, p2]);
    let dot = to_dot(&g);
    assert!(dot.starts_with("digraph raven"));
    assert!(dot.contains("\"GitHub\" -> \"Reddit\""));
}

#[test]
fn test_to_d3_json() {
    let p = make_profile("GitHub", "/user", vec![]);
    let g = build_account_graph(&[p]);
    let json: serde_json::Value = serde_json::from_str(&to_d3_json(&g)).unwrap();
    assert_eq!(json["nodes"].as_array().unwrap().len(), 1);
    assert_eq!(json["links"].as_array().unwrap().len(), 0);
}

#[test]
fn d3_json_text_is_compact_with_sorted_keys() {
    let p1 = make_profile("GitHub", "/user", vec!["https://reddit.com/user/x"]);
    let mut p2 = make_profile("Reddit", "/user", vec![]);
    p2.details.display_name = None;
    let g = build_account_graph(&[p1, p2]);
    assert_eq!(
        to_d3_json(&g),
        "{\"links\":[{\"label\":\"link in bio\",\"source\":\"GitHub\",\"target\":\"Reddit\"}],\"nodes\":[{\"id\":\"GitHub\",\"name\":\"GitHub\",\"site\":\"GitHub\",\"url\":\"https://github.com/user\"},{\"id\":\"Reddit\",\"name\":null,\"site\":\"Reddit\",\"url\":\"https://reddit.com/user\"}]}"
    );
}

#[test]
fn d3_json_escapes_text() {
    let mut p = make_profile("GitHub", "/user", vec![]);
    p.details.display_name = Some("a\"b\\c\n\u{1}é".to_string());
    let g = build_account_graph(&[p]);
    let json = to_d3_json(&g);
    assert!(json.contains("\"name\":\"a\\\"b\\\\c\\n\\u0001é\""), "{json}");
    let v: serde_json::Value = serde_json::from_str(&json).unwrap();
    assert_eq!(v["nodes"][0]["name"], "a\"b\\c\n\u{1}é");
}
