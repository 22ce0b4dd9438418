//! Syncing a source: the token it needs, the sync run that records it, and
//! the replacement of the source's cached tasks by the fetched ones.

use vstd::prelude::*;
use crate::db::{
    error_of, finish_params, issued, lemma_upsert_is_not_finish, lemma_upserted_task_reads_back, row_of_upsert, task_of_row, CellView, start_steps, task_param_views, tasks_read, Db, DbOp,
    ParamView, Task, DELETE_TASKS, FINISH_SYNC_RUN, SELECT_TASKS, UPSERT_TASK,
};
use crate::github::GitHubIssue;
use crate::linear::{issue_from_node, IssueNode, LinearIssue};
use crate::storage::{get_token, token_in, Storage};
use crate::text::opt_chars;

verus! {

/// The key under which the Linear API key is stored.
pub const LINEAR_TOKEN_KEY: &'static str = "linear_api_key";

/// The key under which the GitHub token is stored.
pub const GITHUB_TOKEN_KEY: &'static str = "github_pat";

/// A source of tasks.
#[derive(Clone, Copy, Debug, PartialEq, Eq)]
pub enum Source {
    Linear,
    GitHub,
}

/// The name of a source, as the cache stores it.
pub open spec fn source_name(source: Source) -> Seq<char> {
    match source {
        Source::Linear => "linear"@,
        Source::GitHub => "github"@,
    }
}

/// The storage key of a source's token.
pub open spec fn token_key(source: Source) -> Seq<char> {
    match source {
        Source::Linear => LINEAR_TOKEN_KEY@,
        Source::GitHub => GITHUB_TOKEN_KEY@,
    }
}

/// The message when a source has no token.
pub open spec fn missing_token_message(source: Source) -> Seq<char> {
    match source {
        Source::Linear => "No Linear API key configured"@,
        Source::GitHub => "No GitHub token configured"@,
    }
}

impl Source {
    /// The name of the source, as the cache stores it.
    pub fn name(self) -> (r: &'static str)
        ensures
            r@ == source_name(self),
    {
        match self {
            Source::Linear => "linear",
            Source::GitHub => "github",
        }
    }

    /// The storage key of the source's token.
    pub fn token_key(self) -> (r: &'static str)
        ensures
            r@ == token_key(self),
    {
        match self {
            Source::Linear => LINEAR_TOKEN_KEY,
            Source::GitHub => GITHUB_TOKEN_KEY,
        }
    }
}

/// The token of a source; an error where storage is not initialized or
/// holds no token for the source.
pub fn source_token(storage: &Storage, source: Source) -> (r: Result<String, String>)
    ensures
        match storage@ {
            None => r matches Err(e) && e@ == "Storage not initialized"@,
            Some(m) => match token_in(m, token_key(source)) {
                Some(t) => r matches Ok(s) && s@ == t,
                None => r matches Err(e) && e@ == missing_token_message(source),
            },
        },
{
    match get_token(storage, source.token_key())? {
        Some(t) => Ok(t),
        None => match source {
            Source::Linear => Err("No Linear API key configured".to_owned()),
            Source::GitHub => Err("No GitHub token configured".to_owned()),
        },
    }
}

/// The fields with which a fetched issue is written to the cache.
#[derive(Clone, Debug)]
pub struct TaskRecord {
    pub source: String,
    pub source_id: String,
    pub title: String,
    pub status: Option<String>,
    pub url: String,
    pub assignee: Option<String>,
    pub priority: Option<String>,
    pub updated_at: String,
    pub body_md: Option<String>,
    pub repo: Option<String>,
    pub source_metadata: Option<String>,
}

/// The record of a Linear issue: its identifier as the source id, its
/// state name as status, its priority label as priority and its
/// description as body; no assignee and no repository.
pub open spec fn linear_record_of(r: TaskRecord, issue: LinearIssue) -> bool {
    &&& r.source@ == "linear"@
    &&& r.source_id@ == issue.identifier@
    &&& r.title@ == issue.title@
    &&& opt_chars(r.status) == Some(issue.state_name@)
    &&& r.url@ == issue.url@
    &&& r.assignee is None
    &&& opt_chars(r.priority) == Some(issue.priority_label@)
    &&& r.updated_at@ == issue.updated_at@
    &&& opt_chars(r.body_md) == opt_chars(issue.description)
    &&& r.repo is None
    &&& opt_chars(r.source_metadata) == Some(issue.source_metadata@)
}

/// The record of a GitHub issue: its identifier as the source id, its state
/// as status, its repository, its priority label as priority unless that is
/// empty, and its body; no assignee.
pub open spec fn github_record_of(r: TaskRecord, issue: GitHubIssue) -> bool {
    &&& r.source@ == "github"@
    &&& r.source_id@ == issue.identifier@
    &&& r.title@ == issue.title@
    &&& opt_chars(r.status) == Some(issue.state@)
    &&& r.url@ == issue.url@
    &&& r.assignee is None
    &&& opt_chars(r.priority) == if issue.priority_label@.len() == 0 {
        None
    } else {
        Some(issue.priority_label@)
    }
    &&& r.updated_at@ == issue.updated_at@
    &&& opt_chars(r.body_md) == opt_chars(issue.body)
    &&& opt_chars(r.repo) == Some(issue.repo@)
    &&& opt_chars(r.source_metadata) == Some(issue.source_metadata@)
}

fn copy_opt(o: &Option<String>) -> (r: Option<String>)
    ensures
        opt_chars(r) == opt_chars(*o),
{
    match o {
        Some(s) => Some(s.clone()),
        None => None,
    }
}

/// The record with which a Linear issue is cached.
pub fn linear_record(issue: &LinearIssue) -> (r: TaskRecord)
    ensures
        linear_record_of(r, *issue),
{
    TaskRecord {
        source: "linear".to_owned(),
        source_id: issue.identifier.clone(),
        title: issue.title.clone(),
        status: Some(issue.state_name.clone()),
        url: issue.url.clone(),
        assignee: None,
        priority: Some(issue.priority_label.clone()),
        updated_at: issue.updated_at.clone(),
        body_md: copy_opt(&issue.description),
        repo: None,
        source_metadata: Some(issue.source_metadata.clone()),
    }
}

/// The record with which a GitHub issue is cached.
pub fn github_record(issue: &GitHubIssue) -> (r: TaskRecord)
    ensures
        github_record_of(r, *issue),
{
    let priority = if issue.priority_label.as_str().is_empty() {
        None
    } else {
        Some(issue.priority_label.clone())
    };
    TaskRecord {
        source: "github".to_owned(),
        source_id: issue.identifier.clone(),
        title: issue.title.clone(),
        status: Some(issue.state.clone()),
        url: issue.url.clone(),
        assignee: None,
        priority,
        updated_at: issue.updated_at.clone(),
        body_md: copy_opt(&issue.body),
        repo: Some(issue.repo.clone()),
        source_metadata: Some(issue.source_metadata.clone()),
    }
}

fn as_str_opt(o: &Option<String>) -> (r: Option<&str>)
    ensures
        match r {
            Some(s) => opt_chars(*o) == Some(s@),
            None => o is None,
        },
{
    match o {
        Some(s) => Some(s.as_str()),
        None => None,
    }
}

/// The parameters of a record's upsert.
pub open spec fn record_params(rec: TaskRecord) -> Seq<ParamView> {
    task_param_views(
        rec.source@,
        rec.source_id@,
        rec.title@,
        opt_chars(rec.status),
        rec.url@,
        opt_chars(rec.assignee),
        opt_chars(rec.priority),
        rec.updated_at@,
        opt_chars(rec.body_md),
        opt_chars(rec.repo),
        opt_chars(rec.source_metadata),
    )
}

/// Writes a record to the cache: one upsert with the record's fields.
pub fn upsert_record(db: &mut Db, rec: &TaskRecord) -> (r: Result<(), String>)
    ensures
        issued(
            final(db)@,
            old(db)@,
            DbOp::Execute { sql: UPSERT_TASK@, params: record_params(*rec), error: error_of(r) },
        ),
{
    db.upsert_task(
        rec.source.as_str(),
        rec.source_id.as_str(),
        rec.title.as_str(),
        as_str_opt(&rec.status),
        rec.url.as_str(),
        as_str_opt(&rec.assignee),
        as_str_opt(&rec.priority),
        rec.updated_at.as_str(),
        as_str_opt(&rec.body_md),
        as_str_opt(&rec.repo),
        as_str_opt(&rec.source_metadata),
    )
}

/// What starting a sync gives: the source's token and the id of the sync run.
pub struct SyncStart {
    pub token: String,
    pub run_id: i64,
}

/// The run id of a start, or its error's text.
pub open spec fn start_result(r: Result<SyncStart, String>) -> Result<i64, Seq<char>> {
    match r {
        Ok(s) => Ok(s.run_id),
        Err(e) => Err(e@),
    }
}

/// Starts the sync of a source: reads its token and, only where there is
/// one, records the start of a sync run.
pub fn begin_sync(db: &mut Db, storage: &Storage, source: Source) -> (r: Result<SyncStart, String>)
    ensures
        match storage@ {
            None => r matches Err(e) && e@ == "Storage not initialized"@ && final(db)@ == old(db)@,
            Some(m) => match token_in(m, token_key(source)) {
                None => r matches Err(e) && e@ == missing_token_message(source) && final(db)@
                    == old(db)@,
                Some(t) => {
                    &&& old(db)@.len() <= final(db)@.len()
                    &&& final(db)@.subrange(0, old(db)@.len() as int) == old(db)@
                    &&& start_steps(
                        final(db)@.subrange(old(db)@.len() as int, final(db)@.len() as int),
                        source_name(source),
                        start_result(r),
                    )
                    &&& (r matches Ok(s) ==> s.token@ == t)
                },
            },
        },
{
    let token = source_token(storage, source)?;
    let run_id = db.record_sync_start(source.name())?;
    Ok(SyncStart { token, run_id })
}

/// `r` fails with the message `m`.
pub open spec fn result_error(r: Result<Vec<Task>, String>, m: Seq<char>) -> bool {
    r matches Err(x) && x@ == m
}

/// The exchanges that end a successful sync: the run is recorded as
/// successful, then the source's tasks are read back.
pub open spec fn finish_read_steps(
    ops: Seq<DbOp>,
    source: Seq<char>,
    run_id: i64,
    r: Result<Vec<Task>, String>,
) -> bool {
    &&& ops.len() >= 1
    &&& ops[0] is Execute
    &&& ops[0] == DbOp::Execute {
        sql: FINISH_SYNC_RUN@,
        params: finish_params(run_id, true, None),
        error: ops[0]->Execute_error,
    }
    &&& match ops[0]->Execute_error {
        Some(m) => ops.len() == 1 && result_error(r, m),
        None => {
            &&& ops.len() == 2
            &&& ops[1] is QueryAll
            &&& ops[1]->QueryAll_sql == SELECT_TASKS@
            &&& ops[1]->QueryAll_params == seq![ParamView::Text(source)]
            &&& tasks_read(ops[1]->QueryAll_answer, r)
        },
    }
}

/// The exchanges that write the records, one upsert each in order, and then
/// end the sync; they stop at the first failure.
pub open spec fn upsert_steps(
    ops: Seq<DbOp>,
    source: Seq<char>,
    records: Seq<TaskRecord>,
    run_id: i64,
    r: Result<Vec<Task>, String>,
) -> bool
    decreases records.len(),
{
    if records.len() == 0 {
        finish_read_steps(ops, source, run_id, r)
    } else {
        &&& ops.len() >= 1
        &&& ops[0] is Execute
        &&& ops[0] == DbOp::Execute {
            sql: UPSERT_TASK@,
            params: record_params(records[0]),
            error: ops[0]->Execute_error,
        }
        &&& match ops[0]->Execute_error {
            Some(m) => ops.len() == 1 && result_error(r, m),
            None => upsert_steps(ops.drop_first(), source, records.drop_first(), run_id, r),
        }
    }
}

/// The exchanges of a successful fetch: the source's tasks are deleted,
/// the records written, the run recorded as successful and the tasks read
/// back; they stop at the first failure, whose error is the result.
pub open spec fn replace_steps(
    ops: Seq<DbOp>,
    source: Seq<char>,
    records: Seq<TaskRecord>,
    run_id: i64,
    r: Result<Vec<Task>, String>,
) -> bool {
    &&& ops.len() >= 1
    &&& ops[0] is Execute
    &&& ops[0] == DbOp::Execute {
        sql: DELETE_TASKS@,
        params: seq![ParamView::Text(source)],
        error: ops[0]->Execute_error,
    }
    &&& match ops[0]->Execute_error {
        Some(m) => ops.len() == 1 && result_error(r, m),
        None => upsert_steps(ops.drop_first(), source, records, run_id, r),
    }
}

/// The exchange of a failed fetch: the run is recorded as failed with the
/// fetch's error `e`, and the result is `e`, or the error of that record.
pub open spec fn failure_steps(ops: Seq<DbOp>, run_id: i64, e: Seq<char>, r: Result<Vec<Task>, String>) -> bool {
    &&& ops.len() == 1
    &&& ops[0] is Execute
    &&& ops[0] == DbOp::Execute {
        sql: FINISH_SYNC_RUN@,
        params: finish_params(run_id, false, Some(e)),
        error: ops[0]->Execute_error,
    }
    &&& match ops[0]->Execute_error {
        Some(m) => result_error(r, m),
        None => result_error(r, e),
    }
}

/// The successful upsert of a record.
pub open spec fn written(rec: TaskRecord) -> DbOp {
    DbOp::Execute { sql: UPSERT_TASK@, params: record_params(rec), error: None }
}

/// The successful deletion of a source's tasks.
pub open spec fn deleted(source: Seq<char>) -> DbOp {
    DbOp::Execute { sql: DELETE_TASKS@, params: seq![ParamView::Text(source)], error: None }
}

/// Upserts that all succeeded, followed by the steps for the records left.
proof fn lemma_upsert_steps(
    ops: Seq<DbOp>,
    source: Seq<char>,
    records: Seq<TaskRecord>,
    run_id: i64,
    r: Result<Vec<Task>, String>,
    k: int,
)
    requires
        0 <= k <= records.len(),
        k <= ops.len(),
        forall|j: int|
            0 <= j < k ==> ops[j] == written(records[j]),
        upsert_steps(
            ops.subrange(k, ops.len() as int),
            source,
            records.subrange(k, records.len() as int),
            run_id,
            r,
        ),
    ensures
        upsert_steps(ops, source, records, run_id, r),
    decreases k,
{
    if k == 0 {
        assert(ops.subrange(0, ops.len() as int) =~= ops);
        assert(records.subrange(0, records.len() as int) =~= records);
    } else {
        assert(ops.drop_first().subrange(k - 1, ops.drop_first().len() as int) =~= ops.subrange(
            k,
            ops.len() as int,
        ));
        assert(records.drop_first().subrange(k - 1, records.drop_first().len() as int)
            =~= records.subrange(k, records.len() as int));
        assert forall|j: int| 0 <= j < k - 1 implies ops.drop_first()[j] == DbOp::Execute {
            sql: UPSERT_TASK@,
            params: record_params(records.drop_first()[j]),
            error: None,
        } by {
            assert(ops.drop_first()[j] == ops[j + 1]);
            assert(records.drop_first()[j] == records[j + 1]);
        }
        lemma_upsert_steps(ops.drop_first(), source, records.drop_first(), run_id, r, k - 1);
        assert(ops[0] is Execute);
    }
}

/// Ends the sync of a source with the records made of the fetched issues,
/// or with the fetch's error: on success, replaces the source's cached
/// tasks by the records, records the run as successful and returns the
/// source's tasks read back; on failure, records the run as failed with the
/// error and returns the error.
pub fn finish_sync(
    db: &mut Db,
    source: Source,
    run_id: i64,
    fetched: Result<Vec<TaskRecord>, String>,
) -> (r: Result<Vec<Task>, String>)
    ensures
        old(db)@.len() <= final(db)@.len(),
        final(db)@.subrange(0, old(db)@.len() as int) == old(db)@,
        match fetched {
            Ok(records) => replace_steps(
                final(db)@.subrange(old(db)@.len() as int, final(db)@.len() as int),
                source_name(source),
                records@,
                run_id,
                r,
            ),
            Err(e) => failure_steps(
                final(db)@.subrange(old(db)@.len() as int, final(db)@.len() as int),
                run_id,
                e@,
                r,
            ),
        },
{
    let ghost start = db@;
    match fetched {
        Ok(records) => {
            let d = db.delete_tasks_by_source(source.name());
            proof {
                assert(db@.subrange(0, start.len() as int) =~= start);
                assert(db@.subrange(start.len() as int, db@.len() as int)[0] == db@[start.len() as int]);
            }
            match d {
                Ok(()) => {},
                Err(m) => {
                    proof {
                        assert(db@.subrange(start.len() as int, db@.len() as int) =~= seq![db@.last()]);
                    }
                    return Err(m);
                },
            }
            let ghost base = db@;
            let mut i: usize = 0;
            while i < records.len()
                invariant
                    i <= records.len(),
                    start == old(db)@,
                    fetched == Ok::<Vec<TaskRecord>, String>(records),
                    base.len() == start.len() + 1,
                    base.subrange(0, start.len() as int) == start,
                    base.last() == deleted(source_name(source)),
                    db@.len() == base.len() + i,
                    db@.subrange(0, base.len() as int) == base,
                    forall|j: int|
                        0 <= j < i ==> db@[base.len() + j] == written(records@[j]),
                decreases records.len() - i,
            {
                let ghost before = db@;
                let u = upsert_record(db, &records[i]);
                proof {
                    assert(db@.subrange(0, base.len() as int) =~= base);
                    assert forall|j: int| 0 <= j < i implies db@[base.len() + j] == written(records@[j]) by {
                        assert(db@[base.len() + j] == before[base.len() + j]);
                    }
                }
                match u {
                    Ok(()) => {},
                    Err(m) => {
                        proof {
                            let n = db@.subrange(start.len() as int, db@.len() as int);
                            let ups = n.drop_first();
                            assert(ups =~= db@.subrange(base.len() as int, db@.len() as int));
                            assert(ups.subrange(i as int, ups.len() as int) =~= seq![db@.last()]);
                            let rest = records@.subrange(i as int, records.len() as int);
                            assert(rest[0] == records@[i as int]);
                            assert forall|j: int| 0 <= j < i implies ups[j] == written(records@[j]) by {
                                assert(ups[j] == db@[base.len() + j]);
                            }
                            lemma_upsert_steps(ups, source_name(source), records@, run_id, Err(m), i as int);
                            assert(n[0] == base.last());
                            assert(db@.subrange(0, start.len() as int) =~= base.subrange(0, start.len() as int));
                            assert(db@.subrange(0, start.len() as int) =~= start);
                        }
                        return Err(m);
                    },
                }
                i = i + 1;
            }
            let ghost after_upserts = db@;
            let f = db.record_sync_finish(run_id, true, None);
            let r = match f {
                Ok(()) => db.get_tasks_by_source(source.name()),
                Err(m) => Err(m),
            };
            proof {
                let n = db@.subrange(start.len() as int, db@.len() as int);
                let ups = n.drop_first();
                let tail = db@.subrange(after_upserts.len() as int, db@.len() as int);
                assert(ups.subrange(records.len() as int, ups.len() as int) =~= tail);
                assert(records@.subrange(records.len() as int, records.len() as int) =~= Seq::<
                    TaskRecord,
                >::empty());
                assert(db@.subrange(0, after_upserts.len() as int) =~= after_upserts);
                assert(tail[0] == db@[after_upserts.len() as int]);
                assert forall|j: int| 0 <= j < records.len() implies ups[j] == written(records@[j]) by {
                    assert(ups[j] == db@[base.len() + j]);
                    assert(db@[base.len() + j] == after_upserts[base.len() + j]);
                }
                lemma_upsert_steps(ups, source_name(source), records@, run_id, r, records.len() as int);
                assert(n[0] == db@[start.len() as int]);
                assert(db@[start.len() as int] == base.last());
                assert(db@.subrange(0, start.len() as int) =~= start);
            }
            r
        },
        Err(e) => {
            let f = db.record_sync_finish(run_id, false, Some(e.as_str()));
            proof {
                assert(db@.subrange(0, start.len() as int) =~= start);
                assert(db@.subrange(start.len() as int, db@.len() as int) =~= seq![db@.last()]);
            }
            match f {
                Ok(()) => Err(e),
                Err(m) => Err(m),
            }
        },
    }
}

/// The records of fetched Linear issues, in order; the fetch's error as it is.
pub fn linear_records(fetched: Result<Vec<LinearIssue>, String>) -> (r: Result<Vec<TaskRecord>, String>)
    ensures
        match fetched {
            Ok(issues) => r matches Ok(recs) && recs.len() == issues.len() && forall|i: int|
                0 <= i < issues.len() ==> linear_record_of(#[trigger] recs@[i], issues@[i]),
            Err(e) => r matches Err(m) && m@ == e@,
        },
{
    match fetched {
        Ok(issues) => {
            let mut recs: Vec<TaskRecord> = Vec::new();
            let mut i: usize = 0;
            while i < issues.len()
                invariant
                    i <= issues.len(),
                    recs.len() == i,
                    forall|j: int| 0 <= j < i ==> linear_record_of(#[trigger] recs@[j], issues@[j]),
                decreases issues.len() - i,
            {
                recs.push(linear_record(&issues[i]));
                i = i + 1;
            }
            Ok(recs)
        },
        Err(e) => Err(e),
    }
}

/// The records of fetched GitHub issues, in order; the fetch's error as it is.
pub fn github_records(fetched: Result<Vec<GitHubIssue>, String>) -> (r: Result<Vec<TaskRecord>, String>)
    ensures
        match fetched {
            Ok(issues) => r matches Ok(recs) && recs.len() == issues.len() && forall|i: int|
                0 <= i < issues.len() ==> github_record_of(#[trigger] recs@[i], issues@[i]),
            Err(e) => r matches Err(m) && m@ == e@,
        },
{
    match fetched {
        Ok(issues) => {
            let mut recs: Vec<TaskRecord> = Vec::new();
            let mut i: usize = 0;
            while i < issues.len()
                invariant
                    i <= issues.len(),
                    recs.len() == i,
                    forall|j: int| 0 <= j < i ==> github_record_of(#[trigger] recs@[j], issues@[j]),
                decreases issues.len() - i,
            {
                recs.push(github_record(&issues[i]));
                i = i + 1;
            }
            Ok(recs)
        },
        Err(e) => Err(e),
    }
}


/// A sync whose fetch failed never records a successful run: the one
/// statement it issues ends the run with outcome 0, the fetch's error as
/// the message and the run's id, and the sync fails.
pub proof fn lemma_failed_sync_records_failure(ops: Seq<DbOp>, run_id: i64, e: Seq<char>, r: Result<Vec<Task>, String>)
    requires
        failure_steps(ops, run_id, e, r),
    ensures
        ops.len() == 1,
        (ops[0] is Execute),
        ops[0]->Execute_sql == FINISH_SYNC_RUN@,
        ops[0]->Execute_params == seq![
            ParamView::Integer(0),
            ParamView::Text(e),
            ParamView::Integer(run_id),
        ],
        (r is Err),
{
}

/// A successful sync ends its run with outcome 1 and no message: whatever
/// statement of a successful fetch ends the run records it as successful.
pub proof fn lemma_successful_sync_records_success(
    ops: Seq<DbOp>,
    source: Seq<char>,
    records: Seq<TaskRecord>,
    run_id: i64,
    r: Result<Vec<Task>, String>,
)
    requires
        upsert_steps(ops, source, records, run_id, r),
    ensures
        forall|k: int|
            0 <= k < ops.len() && (#[trigger] ops[k] matches DbOp::Execute { sql, .. } && sql
                == FINISH_SYNC_RUN@) ==> ops[k]->Execute_params == seq![
                ParamView::Integer(1),
                ParamView::Null,
                ParamView::Integer(run_id),
            ],
    decreases records.len(),
{
    if records.len() > 0 {
        if ops[0]->Execute_error is None {
            lemma_successful_sync_records_success(ops.drop_first(), source, records.drop_first(), run_id, r);
            assert forall|k: int|
                0 <= k < ops.len() && (#[trigger] ops[k] matches DbOp::Execute { sql, .. } && sql
                    == FINISH_SYNC_RUN@) implies ops[k]->Execute_params == seq![
                    ParamView::Integer(1),
                    ParamView::Null,
                    ParamView::Integer(run_id),
                ] by {
                if k == 0 {
                    lemma_upsert_is_not_finish();
                } else {
                    assert(ops[k] == ops.drop_first()[k - 1]);
                }
            }
        } else {
            lemma_upsert_is_not_finish();
        }
    }
}

/// A Linear issue is cached with what its node says: the node's identifier
/// as source id, its title, URL and update time, its state name as status,
/// its priority label as priority and its description as body; the source
/// is Linear, with no assignee and no repository.
pub proof fn lemma_linear_node_cached(node: IssueNode, issue: LinearIssue, rec: TaskRecord)
    requires
        issue_from_node(issue, node),
        linear_record_of(rec, issue),
    ensures
        rec.source@ == "linear"@,
        rec.source_id@ == node.identifier@,
        rec.title@ == node.title@,
        opt_chars(rec.status) == Some(node.state.name@),
        rec.url@ == node.url@,
        (rec.assignee is None),
        opt_chars(rec.priority) == Some(node.priority_label@),
        rec.updated_at@ == node.updated_at@,
        opt_chars(rec.body_md) == opt_chars(node.description),
        (rec.repo is None),
{
}

/// A record that a sync writes reads back unchanged: a row holding the
/// values bound by the record's upsert reads as a task with every field of
/// the record, each in its own field.
pub proof fn lemma_record_reads_back(rec: TaskRecord, id: i64, row: Seq<CellView>, t: Task)
    requires
        row_of_upsert(row, id, record_params(rec)),
        task_of_row(t, row),
    ensures
        t.id == id,
        t.source@ == rec.source@,
        t.source_id@ == rec.source_id@,
        t.title@ == rec.title@,
        opt_chars(t.status) == opt_chars(rec.status),
        t.url@ == rec.url@,
        opt_chars(t.assignee) == opt_chars(rec.assignee),
        opt_chars(t.priority) == opt_chars(rec.priority),
        t.updated_at@ == rec.updated_at@,
        opt_chars(t.body_md) == opt_chars(rec.body_md),
        opt_chars(t.repo) == opt_chars(rec.repo),
        opt_chars(t.source_metadata) == opt_chars(rec.source_metadata),
{
    lemma_upserted_task_reads_back(
        rec.source@,
        rec.source_id@,
        rec.title@,
        opt_chars(rec.status),
        rec.url@,
        opt_chars(rec.assignee),
        opt_chars(rec.priority),
        rec.updated_at@,
        opt_chars(rec.body_md),
        opt_chars(rec.repo),
        opt_chars(rec.source_metadata),
        id,
        row,
        t,
    );
}

} // verus!
