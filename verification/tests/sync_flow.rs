use tasklane::db::Db;
use tasklane::github::GitHubIssue;
use tasklane::linear::LinearIssue;
use tasklane::storage::{init, set_token, SecretStore, Storage};
use tasklane::sync::{
    begin_sync, finish_sync, github_record, github_records, linear_record, linear_records,
    source_token, Source,
};

fn linear_issue(identifier: &str, updated_at: &str) -> LinearIssue {
    LinearIssue {
        id: "uuid".to_string(),
        identifier: identifier.to_string(),
        title: format!("Title {}", identifier),
        url: "https://linear.app/x".to_string(),
        updated_at: updated_at.to_string(),
        state_name: "Todo".to_string(),
        state_type: "unstarted".to_string(),
        priority_label: "Urgent".to_string(),
        description: Some("desc".to_string()),
        source_metadata: "{\"priority_label\":\"Urgent\",\"state_type\":\"unstarted\"}".to_string(),
    }
}

fn github_issue(priority_label: &str) -> GitHubIssue {
    GitHubIssue {
        identifier: "a/b#3".to_string(),
        number: 3,
        title: "Fix".to_string(),
        state: "open".to_string(),
        url: "https://github.com/a/b/issues/3".to_string(),
        updated_at: "2024-04-04".to_string(),
        body: None,
        repo: "a/b".to_string(),
        is_pr: false,
        priority_label: priority_label.to_string(),
        source_metadata: "{\"is_pr\":false,\"labels\":[]}".to_string(),
    }
}

fn storage_with(key: &str, token: &str) -> Storage {
    let mut s = Storage::new();
    init(&mut s, SecretStore::new()).unwrap();
    set_token(&mut s, key, token).unwrap();
    s
}

#[test]
fn source_names_and_keys() {
    assert_eq!(Source::Linear.name(), "linear");
    assert_eq!(Source::GitHub.name(), "github");
    assert_eq!(Source::Linear.token_key(), "linear_api_key");
    assert_eq!(Source::GitHub.token_key(), "github_pat");
}

#[test]
fn missing_tokens() {
    let s = storage_with("other", "x");
    assert_eq!(source_token(&s, Source::Linear), Err("No Linear API key configured".to_string()));
    assert_eq!(source_token(&s, Source::GitHub), Err("No GitHub token configured".to_string()));
    let un = Storage::new();
    assert_eq!(source_token(&un, Source::GitHub), Err("Storage not initialized".to_string()));
    let s = storage_with("github_pat", "ghp");
    assert_eq!(source_token(&s, Source::GitHub), Ok("ghp".to_string()));
}

#[test]
fn linear_record_fields() {
    let r = linear_record(&linear_issue("ENG-9", "2024"));
    assert_eq!(r.source, "linear");
    assert_eq!(r.source_id, "ENG-9");
    assert_eq!(r.title, "Title ENG-9");
    assert_eq!(r.status, Some("Todo".to_string()));
    assert_eq!(r.assignee, None);
    assert_eq!(r.priority, Some("Urgent".to_string()));
    assert_eq!(r.body_md, Some("desc".to_string()));
    assert_eq!(r.repo, None);
    assert!(r.source_metadata.unwrap().contains("Urgent"));
}

#[test]
fn github_record_fields() {
    let r = github_record(&github_issue("priority/high"));
    assert_eq!(r.source, "github");
    assert_eq!(r.source_id, "a/b#3");
    assert_eq!(r.status, Some("open".to_string()));
    assert_eq!(r.assignee, None);
    assert_eq!(r.priority, Some("priority/high".to_string()));
    assert_eq!(r.body_md, None);
    assert_eq!(r.repo, Some("a/b".to_string()));
    let r = github_record(&github_issue(""));
    assert_eq!(r.priority, None);
}

#[test]
fn records_keep_errors() {
    assert_eq!(linear_records(Err("boom".to_string())).unwrap_err(), "boom");
    assert_eq!(github_records(Err("bust".to_string())).unwrap_err(), "bust");
    assert_eq!(github_records(Ok(vec![github_issue(""), github_issue("p")])).unwrap().len(), 2);
}

#[test]
fn sync_replaces_the_source_tasks() {
    let mut db = Db::new(":memory:").unwrap();
    let storage = storage_with("linear_api_key", "lin");
    let start = begin_sync(&mut db, &storage, Source::Linear).unwrap();
    assert_eq!(start.token, "lin");
    assert_eq!(db.is_sync_in_progress("linear"), Ok(true));
    let fetched = linear_records(Ok(vec![linear_issue("ENG-1", "2024-01"), linear_issue("ENG-2", "2024-02")]));
    let tasks = finish_sync(&mut db, Source::Linear, start.run_id, fetched).unwrap();
    assert_eq!(tasks.len(), 2);
    assert_eq!(tasks[0].source_id, "ENG-2");
    assert_eq!(db.is_sync_in_progress("linear"), Ok(false));
    let again = begin_sync(&mut db, &storage, Source::Linear).unwrap();
    let tasks = finish_sync(&mut db, Source::Linear, again.run_id, linear_records(Ok(vec![linear_issue("ENG-3", "2024-03")]))).unwrap();
    assert_eq!(tasks.len(), 1);
    assert_eq!(tasks[0].source_id, "ENG-3");
}

#[test]
fn failed_sync_keeps_tasks_and_reports_the_error() {
    let mut db = Db::new(":memory:").unwrap();
    let storage = storage_with("github_pat", "ghp");
    let start = begin_sync(&mut db, &storage, Source::GitHub).unwrap();
    let tasks = finish_sync(&mut db, Source::GitHub, start.run_id, github_records(Ok(vec![github_issue("")]))).unwrap();
    assert_eq!(tasks.len(), 1);
    let start = begin_sync(&mut db, &storage, Source::GitHub).unwrap();
    let r = finish_sync(&mut db, Source::GitHub, start.run_id, Err("GitHub API error 500".to_string()));
    assert_eq!(r.unwrap_err(), "GitHub API error 500");
    assert_eq!(db.get_tasks_by_source("github").unwrap().len(), 1);
    assert_eq!(db.is_sync_in_progress("github"), Ok(false));
    assert!(db.get_last_successful_sync("github").unwrap().is_some());
}

#[test]
fn sync_without_token_records_nothing() {
    let mut db = Db::new(":memory:").unwrap();
    let storage = storage_with("other", "x");
    assert!(begin_sync(&mut db, &storage, Source::Linear).is_err());
    assert_eq!(db.is_sync_in_progress("linear"), Ok(false));
}
