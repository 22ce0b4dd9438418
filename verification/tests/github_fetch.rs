use tasklane::github::{GitHubAction, GitHubEvent, GitHubFetch, GitHubItem, MAX_RESULTS};

fn items(from: u64, n: u64) -> Vec<GitHubItem> {
    (from..from + n)
        .map(|k| GitHubItem {
            number: k,
            title: format!("t{}", k),
            state: "open".to_string(),
            html_url: format!("https://github.com/a/b/issues/{}", k),
            updated_at: "2024-01-01T00:00:00Z".to_string(),
            body: None,
            repository_url: "https://api.github.com/repos/a/b".to_string(),
            is_pull_request: false,
            labels: Vec::new(),
        })
        .collect()
}

#[test]
fn fetch_starts_at_the_search_url() {
    let (_fetch, url) = GitHubFetch::start();
    assert!(url.starts_with("https://api.github.com/search/issues?q="));
}

#[test]
fn fetch_status_decides_how_to_read() {
    let (mut fetch, _) = GitHubFetch::start();
    assert!(matches!(fetch.on_event(GitHubEvent::Status(200)), GitHubAction::ReadPage));
    assert!(matches!(fetch.on_event(GitHubEvent::Status(299)), GitHubAction::ReadPage));
    assert!(matches!(fetch.on_event(GitHubEvent::Status(199)), GitHubAction::ReadErrorBody));
    assert!(matches!(fetch.on_event(GitHubEvent::Status(404)), GitHubAction::ReadErrorBody));
}

#[test]
fn fetch_error_messages() {
    let (mut fetch, _) = GitHubFetch::start();
    match fetch.on_event(GitHubEvent::ErrorBody {
        status: "401 Unauthorized".to_string(),
        body: "Bad credentials".to_string(),
    }) {
        GitHubAction::Failed(m) => assert_eq!(m, "GitHub API error 401 Unauthorized: Bad credentials"),
        _ => panic!("expected a failure"),
    }
    match fetch.on_event(GitHubEvent::SendFailed("connection refused".to_string())) {
        GitHubAction::Failed(m) => assert_eq!(m, "connection refused"),
        _ => panic!("expected a failure"),
    }
    match fetch.on_event(GitHubEvent::ParseFailed("missing field `items`".to_string())) {
        GitHubAction::Failed(m) => assert_eq!(m, "missing field `items`"),
        _ => panic!("expected a failure"),
    }
}

#[test]
fn fetch_follows_next_links_and_collects_pages() {
    let (mut fetch, _) = GitHubFetch::start();
    let next = fetch.on_event(GitHubEvent::Page {
        items: items(1, 2),
        link: Some("<https://api.github.com/search/issues?page=2>; rel=\"next\"".to_string()),
    });
    match next {
        GitHubAction::Request(u) => assert_eq!(u, "https://api.github.com/search/issues?page=2"),
        _ => panic!("expected a request"),
    }
    match fetch.on_event(GitHubEvent::Page { items: items(3, 1), link: None }) {
        GitHubAction::Finished(v) => {
            let ids: Vec<String> = v.iter().map(|i| i.identifier.clone()).collect();
            assert_eq!(ids, vec!["a/b#1", "a/b#2", "a/b#3"]);
        }
        _ => panic!("expected the end"),
    }
}

#[test]
fn fetch_ends_without_a_next_link() {
    let (mut fetch, _) = GitHubFetch::start();
    match fetch.on_event(GitHubEvent::Page {
        items: items(1, 1),
        link: Some("<https://x/?page=1>; rel=\"prev\"".to_string()),
    }) {
        GitHubAction::Finished(v) => assert_eq!(v.len(), 1),
        _ => panic!("expected the end"),
    }
}

#[test]
fn fetch_stops_at_the_cap() {
    let (mut fetch, _) = GitHubFetch::start();
    let link = Some("<https://x/?page=2>; rel=\"next\"".to_string());
    match fetch.on_event(GitHubEvent::Page { items: items(0, 300), link: link.clone() }) {
        GitHubAction::Request(_) => {}
        _ => panic!("expected a request"),
    }
    match fetch.on_event(GitHubEvent::Page { items: items(300, 300), link }) {
        GitHubAction::Finished(v) => {
            assert_eq!(v.len(), MAX_RESULTS);
            assert_eq!(v[0].number, 0);
            assert_eq!(v[499].number, 499);
        }
        _ => panic!("expected the end"),
    }
}

#[test]
fn fetch_stops_at_exactly_the_cap() {
    let (mut fetch, _) = GitHubFetch::start();
    let link = Some("<https://x/?page=2>; rel=\"next\"".to_string());
    match fetch.on_event(GitHubEvent::Page { items: items(0, 500), link }) {
        GitHubAction::Finished(v) => assert_eq!(v.len(), 500),
        _ => panic!("expected the end"),
    }
}
