use tasklane::github::{
    authorization, convert_item, convert_items, first_page_url, GitHubItem, GitHubLabel,
};

fn item(number: u64, repository_url: &str, labels: &[&str], is_pr: bool) -> GitHubItem {
    GitHubItem {
        number,
        title: format!("title {}", number),
        state: "open".to_string(),
        html_url: format!("https://github.com/o/r/issues/{}", number),
        updated_at: "2024-05-01T10:00:00Z".to_string(),
        body: Some("body".to_string()),
        repository_url: repository_url.to_string(),
        is_pull_request: is_pr,
        labels: labels.iter().map(|l| GitHubLabel { name: l.to_string() }).collect(),
    }
}

#[test]
fn convert_item_fields() {
    let issue = convert_item(item(
        42,
        "https://api.github.com/repos/acme/widgets",
        &["bug", "priority/high", "priority/low"],
        true,
    ));
    assert_eq!(issue.repo, "acme/widgets");
    assert_eq!(issue.identifier, "acme/widgets#42");
    assert_eq!(issue.number, 42);
    assert_eq!(issue.title, "title 42");
    assert_eq!(issue.state, "open");
    assert_eq!(issue.url, "https://github.com/o/r/issues/42");
    assert_eq!(issue.updated_at, "2024-05-01T10:00:00Z");
    assert_eq!(issue.body, Some("body".to_string()));
    assert!(issue.is_pr);
    assert_eq!(issue.priority_label, "priority/high");
    assert_eq!(
        issue.source_metadata,
        r#"{"is_pr":true,"labels":["bug","priority/high","priority/low"]}"#
    );
}

#[test]
fn convert_item_without_priority_label() {
    let issue = convert_item(item(0, "https://api.github.com/repos/a/b", &["bug", "prio/x"], false));
    assert_eq!(issue.identifier, "a/b#0");
    assert_eq!(issue.priority_label, "");
    assert!(!issue.is_pr);
    assert_eq!(issue.source_metadata, r#"{"is_pr":false,"labels":["bug","prio/x"]}"#);
}

#[test]
fn convert_item_metadata_escapes_strings() {
    let issue = convert_item(item(7, "https://api.github.com/repos/a/b", &["say \"hi\""], false));
    assert_eq!(issue.source_metadata, r#"{"is_pr":false,"labels":["say \"hi\""]}"#);
    let issue = convert_item(item(7, "https://api.github.com/repos/a/b", &[], false));
    assert_eq!(issue.source_metadata, r#"{"is_pr":false,"labels":[]}"#);
}

#[test]
fn convert_item_removes_every_prefix() {
    let issue = convert_item(item(
        18446744073709551615,
        "https://api.github.com/repos/xhttps://api.github.com/repos/y",
        &[],
        false,
    ));
    assert_eq!(issue.repo, "xy");
    assert_eq!(issue.identifier, "xy#18446744073709551615");
}

#[test]
fn convert_item_keeps_other_urls() {
    let issue = convert_item(item(5, "https://example.com/repos/a/b", &[], false));
    assert_eq!(issue.repo, "https://example.com/repos/a/b");
    assert_eq!(issue.identifier, "https://example.com/repos/a/b#5");
}

#[test]
fn convert_items_keeps_order() {
    let issues = convert_items(vec![
        item(1, "https://api.github.com/repos/a/b", &[], false),
        item(2, "https://api.github.com/repos/c/d", &[], true),
    ]);
    assert_eq!(issues.len(), 2);
    assert_eq!(issues[0].identifier, "a/b#1");
    assert_eq!(issues[1].identifier, "c/d#2");
    assert!(convert_items(Vec::new()).is_empty());
}

#[test]
fn first_page_url_encodes_the_query() {
    assert_eq!(
        first_page_url(),
        "https://api.github.com/search/issues?q=is%3Aopen%20assignee%3A%40me&per_page=100&sort=updated&order=desc"
    );
}

#[test]
fn authorization_is_a_bearer_token() {
    assert_eq!(authorization("abc123"), "Bearer abc123");
}
