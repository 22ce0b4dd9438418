use tasklane::db::{
    ok_flag, optional_text, schema_needs_reset, sync_in_progress, task_from_row, tasks_from_rows,
    Db, RawLookup, SqlCell, SCHEMA_VERSION,
};

fn memory_db() -> Db {
    Db::new(":memory:").unwrap()
}

fn upsert(db: &mut Db, source: &str, source_id: &str, title: &str, updated_at: &str) {
    db.upsert_task(
        source,
        source_id,
        title,
        Some("open"),
        "https://example.com",
        None,
        Some("High"),
        updated_at,
        Some("body"),
        Some("a/b"),
        Some("{}"),
    )
    .unwrap();
}

#[test]
fn upsert_then_read_tasks() {
    let mut db = memory_db();
    upsert(&mut db, "linear", "ENG-1", "first", "2024-01-01");
    upsert(&mut db, "linear", "ENG-2", "second", "2024-02-01");
    upsert(&mut db, "github", "a/b#1", "gh", "2024-03-01");
    let tasks = db.get_tasks_by_source("linear").unwrap();
    assert_eq!(tasks.len(), 2);
    assert_eq!(tasks[0].source_id, "ENG-2");
    assert_eq!(tasks[1].source_id, "ENG-1");
    assert_eq!(tasks[0].status, Some("open".to_string()));
    assert_eq!(tasks[0].assignee, None);
    assert_eq!(tasks[0].repo, Some("a/b".to_string()));
    assert_eq!(tasks[0].source_metadata, Some("{}".to_string()));
}

#[test]
fn upsert_updates_the_same_task() {
    let mut db = memory_db();
    upsert(&mut db, "linear", "ENG-1", "first", "2024-01-01");
    let id = db.get_tasks_by_source("linear").unwrap()[0].id;
    upsert(&mut db, "linear", "ENG-1", "renamed", "2024-05-01");
    let tasks = db.get_tasks_by_source("linear").unwrap();
    assert_eq!(tasks.len(), 1);
    assert_eq!(tasks[0].title, "renamed");
    assert_eq!(tasks[0].updated_at, "2024-05-01");
    assert_eq!(tasks[0].id, id);
}

#[test]
fn upsert_rejects_unknown_sources() {
    let mut db = memory_db();
    let r = db.upsert_task("jira", "J-1", "t", None, "u", None, None, "2024", None, None, None);
    assert!(r.is_err());
}

#[test]
fn delete_tasks_of_one_source() {
    let mut db = memory_db();
    upsert(&mut db, "linear", "ENG-1", "first", "2024-01-01");
    upsert(&mut db, "github", "a/b#1", "gh", "2024-03-01");
    db.delete_tasks_by_source("linear").unwrap();
    assert!(db.get_tasks_by_source("linear").unwrap().is_empty());
    assert_eq!(db.get_tasks_by_source("github").unwrap().len(), 1);
}

#[test]
fn settings_read_after_write() {
    let mut db = memory_db();
    assert_eq!(db.get_setting("theme"), Ok(None));
    db.set_setting("theme", "dark").unwrap();
    assert_eq!(db.get_setting("theme"), Ok(Some("dark".to_string())));
    db.set_setting("theme", "light").unwrap();
    assert_eq!(db.get_setting("theme"), Ok(Some("light".to_string())));
}

#[test]
fn sync_runs_are_recorded() {
    let mut db = memory_db();
    assert_eq!(db.is_sync_in_progress("linear"), Ok(false));
    assert_eq!(db.get_last_successful_sync("linear"), Ok(None));
    let run = db.record_sync_start("linear").unwrap();
    assert_eq!(db.is_sync_in_progress("linear"), Ok(true));
    assert_eq!(db.is_sync_in_progress("github"), Ok(false));
    db.record_sync_finish(run, true, None).unwrap();
    assert_eq!(db.is_sync_in_progress("linear"), Ok(false));
    assert!(db.get_last_successful_sync("linear").unwrap().is_some());
    let failed = db.record_sync_start("github").unwrap();
    assert!(failed > run);
    db.record_sync_finish(failed, false, Some("boom")).unwrap();
    assert_eq!(db.get_last_successful_sync("github"), Ok(None));
}

#[test]
fn schema_reset_decision() {
    assert!(!schema_needs_reset(&RawLookup::Found(SqlCell::Integer(SCHEMA_VERSION))));
    assert!(schema_needs_reset(&RawLookup::Found(SqlCell::Integer(1))));
    assert!(schema_needs_reset(&RawLookup::Found(SqlCell::Text(b"2".to_vec()))));
    assert!(schema_needs_reset(&RawLookup::NoRows("Query returned no rows".to_string())));
    assert!(schema_needs_reset(&RawLookup::Failed("no such table".to_string())));
}

#[test]
fn optional_text_lookup() {
    assert_eq!(optional_text(RawLookup::Found(SqlCell::Text(b"v".to_vec())), "value"), Ok(Some("v".to_string())));
    assert_eq!(optional_text(RawLookup::NoRows("Query returned no rows".to_string()), "value"), Ok(None));
    assert_eq!(optional_text(RawLookup::Failed("disk I/O error".to_string()), "value"), Err("disk I/O error".to_string()));
    assert_eq!(
        optional_text(RawLookup::Found(SqlCell::Null), "finished_at"),
        Err("Invalid column type Null at index: 0, name: finished_at".to_string())
    );
}

#[test]
fn sync_in_progress_from_count() {
    assert_eq!(sync_in_progress(RawLookup::Found(SqlCell::Integer(0))), Ok(false));
    assert_eq!(sync_in_progress(RawLookup::Found(SqlCell::Integer(3))), Ok(true));
    assert_eq!(
        sync_in_progress(RawLookup::NoRows("Query returned no rows".to_string())),
        Err("Query returned no rows".to_string())
    );
    assert_eq!(
        sync_in_progress(RawLookup::Found(SqlCell::Real)),
        Err("Invalid column type Real at index: 0, name: COUNT(*)".to_string())
    );
}

#[test]
fn ok_flag_values() {
    assert_eq!(ok_flag(true), 1);
    assert_eq!(ok_flag(false), 0);
}

fn row() -> Vec<SqlCell> {
    let t = |s: &str| SqlCell::Text(s.as_bytes().to_vec());
    vec![
        SqlCell::Integer(7),
        t("github"),
        t("a/b#1"),
        t("title"),
        SqlCell::Null,
        t("url"),
        t("a/b"),
        SqlCell::Null,
        t("2024"),
        t("body"),
        SqlCell::Null,
        t("{}"),
    ]
}

#[test]
fn task_from_row_reads_columns() {
    let task = task_from_row(row()).unwrap();
    assert_eq!(task.id, 7);
    assert_eq!(task.source, "github");
    assert_eq!(task.source_id, "a/b#1");
    assert_eq!(task.title, "title");
    assert_eq!(task.status, None);
    assert_eq!(task.url, "url");
    assert_eq!(task.assignee, Some("a/b".to_string()));
    assert_eq!(task.priority, None);
    assert_eq!(task.updated_at, "2024");
    assert_eq!(task.body_md, Some("body".to_string()));
    assert_eq!(task.repo, None);
    assert_eq!(task.source_metadata, Some("{}".to_string()));
}

#[test]
fn task_from_row_rejects_wrong_types() {
    let mut bad = row();
    bad[3] = SqlCell::Null;
    bad[10] = SqlCell::Integer(3);
    assert_eq!(task_from_row(bad).unwrap_err(), "Invalid column type Null at index: 3, name: title");
    let mut bad_id = row();
    bad_id[0] = SqlCell::Text(b"7".to_vec());
    assert_eq!(task_from_row(bad_id).unwrap_err(), "Invalid column type Text at index: 0, name: id");
    let mut late = row();
    late[11] = SqlCell::Blob;
    assert_eq!(
        task_from_row(late).unwrap_err(),
        "Invalid column type Blob at index: 11, name: source_metadata"
    );
    assert_eq!(tasks_from_rows(vec![Ok(row()), Ok(row())]).unwrap().len(), 2);
    let mut second = row();
    second[1] = SqlCell::Real;
    assert_eq!(
        tasks_from_rows(vec![Ok(row()), Ok(second)]).unwrap_err(),
        "Invalid column type Real at index: 1, name: source"
    );
}

#[test]
fn text_that_is_not_utf8_is_an_error() {
    assert_eq!(
        optional_text(RawLookup::Found(SqlCell::Text(vec![0xff])), "value"),
        Err("Conversion error from type Text at index: 0, invalid utf-8 sequence of 1 bytes from index 0".to_string())
    );
    let mut bad = row();
    bad[4] = SqlCell::Text(vec![b'o', b'k', 0xc3]);
    assert_eq!(
        task_from_row(bad).unwrap_err(),
        "Conversion error from type Text at index: 4, incomplete utf-8 byte sequence from index 2"
    );
    let mut bad_id = row();
    bad_id[0] = SqlCell::Text(vec![0xff]);
    assert_eq!(task_from_row(bad_id).unwrap_err(), "Invalid column type Text at index: 0, name: id");
    assert!(schema_needs_reset(&RawLookup::Found(SqlCell::Text(vec![0xff]))));
    assert_eq!(
        optional_text(RawLookup::Found(SqlCell::Text("caf\u{e9}".as_bytes().to_vec())), "value"),
        Ok(Some("caf\u{e9}".to_string()))
    );
}

#[test]
fn a_failed_step_ends_the_read() {
    let mut bad = row();
    bad[1] = SqlCell::Blob;
    assert_eq!(
        tasks_from_rows(vec![Ok(row()), Err("database is locked".to_string()), Ok(bad.clone())]).unwrap_err(),
        "database is locked"
    );
    assert_eq!(
        tasks_from_rows(vec![Ok(row()), Ok(bad), Err("database is locked".to_string())]).unwrap_err(),
        "Invalid column type Blob at index: 1, name: source"
    );
    assert!(tasks_from_rows(vec![]).unwrap().is_empty());
}

#[test]
fn opening_a_missing_directory_fails() {
    assert!(Db::new("/nonexistent-tasklane-dir/tasklane.db").is_err());
}
