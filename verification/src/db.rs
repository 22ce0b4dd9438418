//! The local task cache: tasks, sync runs and settings in SQLite.
//!
//! What the database holds lives on disk, out of verification's reach. What
//! is verified is the conversation with it: every exchange with SQLite is
//! recorded, by the connection itself, with what was handed over and what
//! came back, and each operation states which statements it issues and how
//! it reads their answers.

use vstd::prelude::*;
use crate::text::{opt_chars, decimal, push_decimal, string_from_chars, utf8_string, utf8_error_text};
use crate::sqlite::Sqlite;
pub use crate::sqlite::{
    answer_view, cells_view, error_of, param_views, row_view, rows_view, CellView, DbOp,
    LookupView, ParamView, RawLookup, SqlCell, SqlParam,
};

verus! {

/// The schema version that this library writes.
pub const SCHEMA_VERSION: i64 = 2;

/// A task as the cache holds it.
#[derive(Clone, Debug)]
pub struct Task {
    pub id: i64,
    pub source: String,
    pub source_id: String,
    pub title: String,
    pub status: Option<String>,
    pub url: String,
    pub assignee: Option<String>,
    pub priority: Option<String>,
    pub updated_at: String,
    pub body_md: Option<String>,
    pub repo: Option<String>,
    pub source_metadata: Option<String>,
}

/// The name of the storage class of a value, as `rusqlite` writes it.
pub open spec fn storage_class_name(c: CellView) -> Seq<char> {
    match c {
        CellView::Null => "Null"@,
        CellView::Integer(_) => "Integer"@,
        CellView::Real => "Real"@,
        CellView::Text(_) => "Text"@,
        CellView::Blob => "Blob"@,
    }
}

/// The message of `rusqlite` for a column whose value does not have the
/// type that is read from it.
pub open spec fn column_type_message(c: CellView, index: nat, name: Seq<char>) -> Seq<char> {
    "Invalid column type "@ + storage_class_name(c) + " at index: "@ + decimal(index) + ", name: "@ + name
}

/// The message of `rusqlite` for a text column whose bytes are not UTF-8.
pub open spec fn conversion_message(index: nat, bytes: Seq<u8>) -> Seq<char> {
    "Conversion error from type Text at index: "@ + decimal(index) + ", "@ + utf8_error_text(bytes)
}

/// The text of a value, where it is a text in UTF-8.
pub open spec fn cell_text(c: CellView) -> Option<Seq<char>> {
    match c {
        CellView::Text(b) => if vstd::utf8::valid_utf8(b) {
            Some(vstd::utf8::decode_utf8(b))
        } else {
            None
        },
        _ => None,
    }
}

/// What reading a string from column `index`, named `name`, gives: the
/// text, or the error for a value of another type or for bytes that are
/// not UTF-8.
pub open spec fn text_read(c: CellView, index: nat, name: Seq<char>) -> Result<Seq<char>, Seq<char>> {
    match c {
        CellView::Text(b) => if vstd::utf8::valid_utf8(b) {
            Ok(vstd::utf8::decode_utf8(b))
        } else {
            Err(conversion_message(index, b))
        },
        _ => Err(column_type_message(c, index, name)),
    }
}

/// The name of the storage class of a value.
fn class_name(c: &SqlCell) -> (r: &'static str)
    ensures
        r@ == storage_class_name(c@),
{
    match c {
        SqlCell::Null => "Null",
        SqlCell::Integer(_) => "Integer",
        SqlCell::Real => "Real",
        SqlCell::Text(_) => "Text",
        SqlCell::Blob => "Blob",
    }
}

/// The decimal digits of `n`.
fn decimal_string(n: usize) -> (r: String)
    ensures
        r@ == decimal(n as nat),
{
    let mut digits: Vec<char> = Vec::new();
    push_decimal(&mut digits, n as u64);
    assert(digits@ =~= decimal(n as nat));
    let d = string_from_chars(&digits, 0, digits.len());
    assert(digits@.subrange(0, digits.len() as int) =~= digits@);
    d
}

/// The message for a column of storage class `class` that does not have
/// the type read from it.
fn column_type_error(class: &str, index: usize, name: &str) -> (r: String)
    ensures
        r@ == "Invalid column type "@ + class@ + " at index: "@ + decimal(index as nat) + ", name: "@ + name@,
{
    let mut m = "Invalid column type ".to_owned();
    m.append(class);
    m.append(" at index: ");
    let d = decimal_string(index);
    m.append(d.as_str());
    m.append(", name: ");
    m.append(name);
    m
}

/// The message for a text column whose bytes are not UTF-8, given the
/// text of the UTF-8 error.
fn conversion_error(index: usize, error: String) -> (r: String)
    ensures
        r@ == "Conversion error from type Text at index: "@ + decimal(index as nat) + ", "@ + error@,
{
    let mut m = "Conversion error from type Text at index: ".to_owned();
    let d = decimal_string(index);
    m.append(d.as_str());
    m.append(", ");
    m.append(error.as_str());
    m
}

/// Reads a string from column `index`, named `name`.
fn read_text(c: SqlCell, index: usize, name: &str) -> (r: Result<String, String>)
    ensures
        text_read(c@, index as nat, name@) == match r {
            Ok(s) => Ok::<Seq<char>, Seq<char>>(s@),
            Err(e) => Err(e@),
        },
{
    let class = class_name(&c);
    match c {
        SqlCell::Text(b) => match utf8_string(b) {
            Ok(s) => Ok(s),
            Err(e) => Err(conversion_error(index, e)),
        },
        _ => Err(column_type_error(class, index, name)),
    }
}

/// What a lookup of an optional text column gives: the text where a row
/// was found, `None` where there was no row.
pub open spec fn text_lookup(l: LookupView, column: Seq<char>) -> Result<Option<Seq<char>>, Seq<char>> {
    match l {
        LookupView::Found(c) => match text_read(c, 0, column) {
            Ok(s) => Ok(Some(s)),
            Err(e) => Err(e),
        },
        LookupView::NoRows(_) => Ok(None),
        LookupView::Failed(e) => Err(e),
    }
}

/// The characters of an optional-text result.
pub open spec fn text_result(r: Result<Option<String>, String>) -> Result<Option<Seq<char>>, Seq<char>> {
    match r {
        Ok(o) => Ok(opt_chars(o)),
        Err(e) => Err(e@),
    }
}

/// Reads a lookup of an optional text column named `column`.
pub fn optional_text(lookup: RawLookup, column: &str) -> (r: Result<Option<String>, String>)
    ensures
        text_result(r) == text_lookup(lookup@, column@),
{
    match lookup {
        RawLookup::Found(c) => match read_text(c, 0, column) {
            Ok(s) => Ok(Some(s)),
            Err(e) => Err(e),
        },
        RawLookup::NoRows(_) => Ok(None),
        RawLookup::Failed(e) => Err(e),
    }
}

/// Whether the stored schema version calls for dropping the tasks: every
/// case but a found version equal to [`SCHEMA_VERSION`].
pub open spec fn reset_needed(l: LookupView) -> bool {
    !(l matches LookupView::Found(CellView::Integer(v)) && v == SCHEMA_VERSION)
}

/// Whether the stored schema version calls for dropping the tasks.
pub fn schema_needs_reset(lookup: &RawLookup) -> (r: bool)
    ensures
        r == reset_needed(lookup@),
{
    match lookup {
        RawLookup::Found(SqlCell::Integer(v)) => *v != SCHEMA_VERSION,
        _ => true,
    }
}

/// What a count of unfinished sync runs gives: whether one is in progress.
pub open spec fn count_lookup(l: LookupView) -> Result<bool, Seq<char>> {
    match l {
        LookupView::Found(CellView::Integer(n)) => Ok(n > 0),
        LookupView::Found(c) => Err(column_type_message(c, 0, "COUNT(*)"@)),
        LookupView::NoRows(e) => Err(e),
        LookupView::Failed(e) => Err(e),
    }
}

/// The characters of a boolean result.
pub open spec fn bool_result(r: Result<bool, String>) -> Result<bool, Seq<char>> {
    match r {
        Ok(b) => Ok(b),
        Err(e) => Err(e@),
    }
}

/// Whether a count of unfinished sync runs shows one in progress.
pub fn sync_in_progress(lookup: RawLookup) -> (r: Result<bool, String>)
    ensures
        bool_result(r) == count_lookup(lookup@),
{
    match lookup {
        RawLookup::Found(SqlCell::Integer(n)) => Ok(n > 0),
        RawLookup::Found(c) => Err(column_type_error(class_name(&c), 0, "COUNT(*)")),
        RawLookup::NoRows(e) => Err(e),
        RawLookup::Failed(e) => Err(e),
    }
}

pub const CREATE_VERSION_TABLE: &'static str = "CREATE TABLE IF NOT EXISTS schema_version (version INTEGER PRIMARY KEY);";

pub const SELECT_VERSION: &'static str = "SELECT version FROM schema_version ORDER BY version DESC LIMIT 1";

pub const RESET_TASKS: &'static str = "
                DROP TABLE IF EXISTS tasks;
                DELETE FROM schema_version;
                ";

pub const INSERT_VERSION: &'static str = "INSERT INTO schema_version (version) VALUES (?1)";

pub const CREATE_TABLES: &'static str = "
            CREATE TABLE IF NOT EXISTS tasks (
                id INTEGER PRIMARY KEY AUTOINCREMENT,
                source TEXT NOT NULL CHECK(source IN ('linear', 'github')),
                source_id TEXT NOT NULL,
                title TEXT NOT NULL,
                status TEXT,
                url TEXT NOT NULL,
                assignee TEXT,
                priority TEXT,
                updated_at TEXT NOT NULL,
                body_md TEXT,
                repo TEXT,
                source_metadata TEXT,
                UNIQUE(source, source_id)
            );
            CREATE TABLE IF NOT EXISTS sync_runs (
                id INTEGER PRIMARY KEY AUTOINCREMENT,
                started_at TEXT NOT NULL,
                finished_at TEXT,
                source TEXT NOT NULL,
                ok INTEGER,
                error_msg TEXT
            );
            CREATE TABLE IF NOT EXISTS settings (
                key TEXT PRIMARY KEY,
                value TEXT NOT NULL
            );
            ";

pub const UPSERT_TASK: &'static str = "INSERT INTO tasks (source, source_id, title, status, url, assignee, priority, updated_at, body_md, repo, source_metadata)
             VALUES (?1, ?2, ?3, ?4, ?5, ?6, ?7, ?8, ?9, ?10, ?11)
             ON CONFLICT(source, source_id) DO UPDATE SET
                title = excluded.title,
                status = excluded.status,
                url = excluded.url,
                assignee = excluded.assignee,
                priority = excluded.priority,
                updated_at = excluded.updated_at,
                body_md = excluded.body_md,
                repo = excluded.repo,
                source_metadata = excluded.source_metadata";

pub const SELECT_TASKS: &'static str = "SELECT id, source, source_id, title, status, url, assignee, priority, updated_at, body_md, repo, source_metadata
                 FROM tasks WHERE source = ?1 ORDER BY updated_at DESC";

pub const DELETE_TASKS: &'static str = "DELETE FROM tasks WHERE source = ?1";

pub const INSERT_SYNC_RUN: &'static str = "INSERT INTO sync_runs (started_at, source) VALUES (datetime('now'), ?1)";

pub const FINISH_SYNC_RUN: &'static str = "UPDATE sync_runs SET finished_at = datetime('now'), ok = ?1, error_msg = ?2 WHERE id = ?3";

pub const SELECT_SETTING: &'static str = "SELECT value FROM settings WHERE key = ?1";

pub const UPSERT_SETTING: &'static str = "INSERT INTO settings (key, value) VALUES (?1, ?2)
             ON CONFLICT(key) DO UPDATE SET value = excluded.value";

pub const SELECT_LAST_SUCCESS: &'static str = "SELECT finished_at FROM sync_runs WHERE source = ?1 AND ok = 1 ORDER BY finished_at DESC LIMIT 1";

pub const COUNT_RUNNING: &'static str = "SELECT COUNT(*) FROM sync_runs WHERE source = ?1 AND finished_at IS NULL";
} // verus!

verus! {

/// Whether column `i` of the task query is `NOT NULL` text.
pub open spec fn required_text(i: int) -> bool {
    i == 1 || i == 2 || i == 3 || i == 5 || i == 8
}

/// Whether column `i` of a task row has the type that is read from it: an
/// integer id, texts in UTF-8 where the column is `NOT NULL`, such texts or
/// nulls elsewhere.
pub open spec fn task_column_ok(i: int, c: CellView) -> bool {
    if i == 0 {
        c is Integer
    } else if required_text(i) {
        cell_text(c) is Some
    } else {
        c is Null || cell_text(c) is Some
    }
}

/// The name of column `i` of the task query.
pub open spec fn task_column_name(i: int) -> Seq<char> {
    if i == 0 {
        "id"@
    } else if i == 1 {
        "source"@
    } else if i == 2 {
        "source_id"@
    } else if i == 3 {
        "title"@
    } else if i == 4 {
        "status"@
    } else if i == 5 {
        "url"@
    } else if i == 6 {
        "assignee"@
    } else if i == 7 {
        "priority"@
    } else if i == 8 {
        "updated_at"@
    } else if i == 9 {
        "body_md"@
    } else if i == 10 {
        "repo"@
    } else {
        "source_metadata"@
    }
}

/// The error of reading column `i` where its value does not have the type
/// read from it: a conversion error for a text that is not UTF-8 in a text
/// column, else the column type error.
pub open spec fn column_error(i: int, c: CellView) -> Seq<char> {
    if i != 0 && c is Text {
        conversion_message(i as nat, c->Text_0)
    } else {
        column_type_message(c, i as nat, task_column_name(i))
    }
}

/// The first column from `i` on that does not have the type read from it,
/// or 12 where there is none.
pub open spec fn first_bad_column(row: Seq<CellView>, i: int) -> int
    decreases 12 - i,
{
    if i >= 12 || i < 0 {
        12
    } else if !task_column_ok(i, row[i]) {
        i
    } else {
        first_bad_column(row, i + 1)
    }
}

/// Whether a row of the task query can be read as a task.
pub open spec fn row_holds_task(row: Seq<CellView>) -> bool {
    first_bad_column(row, 0) == 12
}

/// The error of reading a row that does not hold a task: that of its first
/// column of the wrong type.
pub open spec fn row_error(row: Seq<CellView>) -> Seq<char> {
    let k = first_bad_column(row, 0);
    column_error(k, row[k])
}

/// `t` is the task that `row` holds.
pub open spec fn task_of_row(t: Task, row: Seq<CellView>) -> bool {
    &&& row[0] == CellView::Integer(t.id)
    &&& cell_text(row[1]) == Some(t.source@)
    &&& cell_text(row[2]) == Some(t.source_id@)
    &&& cell_text(row[3]) == Some(t.title@)
    &&& cell_text(row[4]) == opt_chars(t.status)
    &&& cell_text(row[5]) == Some(t.url@)
    &&& cell_text(row[6]) == opt_chars(t.assignee)
    &&& cell_text(row[7]) == opt_chars(t.priority)
    &&& cell_text(row[8]) == Some(t.updated_at@)
    &&& cell_text(row[9]) == opt_chars(t.body_md)
    &&& cell_text(row[10]) == opt_chars(t.repo)
    &&& cell_text(row[11]) == opt_chars(t.source_metadata)
}

/// A column value read with the type of its column.
enum Field {
    Null,
    Integer(i64),
    Text(String),
}

/// `f` is what column value `c` reads as.
spec fn field_holds(f: Field, c: CellView) -> bool {
    match f {
        Field::Null => c is Null,
        Field::Integer(v) => c == CellView::Integer(v),
        Field::Text(s) => cell_text(c) == Some(s@),
    }
}

fn column_name(i: usize) -> (r: &'static str)
    ensures
        r@ == task_column_name(i as int),
{
    if i == 0 {
        "id"
    } else if i == 1 {
        "source"
    } else if i == 2 {
        "source_id"
    } else if i == 3 {
        "title"
    } else if i == 4 {
        "status"
    } else if i == 5 {
        "url"
    } else if i == 6 {
        "assignee"
    } else if i == 7 {
        "priority"
    } else if i == 8 {
        "updated_at"
    } else if i == 9 {
        "body_md"
    } else if i == 10 {
        "repo"
    } else {
        "source_metadata"
    }
}

/// Reads column `i` of a task row with the type of that column.
fn read_column(i: usize, c: SqlCell) -> (r: Result<Field, String>)
    requires
        i < 12,
    ensures
        r is Ok <==> task_column_ok(i as int, c@),
        r matches Ok(f) ==> field_holds(f, c@),
        r matches Err(m) ==> m@ == column_error(i as int, c@),
{
    let class = class_name(&c);
    let required = i == 1 || i == 2 || i == 3 || i == 5 || i == 8;
    match c {
        SqlCell::Integer(v) => if i == 0 {
            Ok(Field::Integer(v))
        } else {
            Err(column_type_error(class, i, column_name(i)))
        },
        SqlCell::Null => if i == 0 || required {
            Err(column_type_error(class, i, column_name(i)))
        } else {
            Ok(Field::Null)
        },
        SqlCell::Text(b) => if i == 0 {
            Err(column_type_error(class, i, column_name(i)))
        } else {
            match utf8_string(b) {
                Ok(s) => Ok(Field::Text(s)),
                Err(e) => Err(conversion_error(i, e)),
            }
        },
        _ => Err(column_type_error(class, i, column_name(i))),
    }
}

fn take_text(f: Field) -> (r: String)
    requires
        f is Text,
    ensures
        f == Field::Text(r),
{
    match f {
        Field::Text(s) => s,
        _ => String::new(),
    }
}

fn take_optional_text(f: Field) -> (r: Option<String>)
    requires
        f is Null || f is Text,
    ensures
        match f {
            Field::Text(s) => r == Some(s),
            _ => r is None,
        },
{
    match f {
        Field::Text(s) => Some(s),
        _ => None,
    }
}

/// Reads a row of the task query as a task, column by column in order;
/// the first column that does not have the type read from it gives the error.
pub fn task_from_row(row: Vec<SqlCell>) -> (r: Result<Task, String>)
    requires
        row.len() == 12,
    ensures
        row_holds_task(cells_view(row@)) ==> (r matches Ok(t) && task_of_row(t, cells_view(row@))),
        !row_holds_task(cells_view(row@)) ==> (r matches Err(m) && m@ == row_error(cells_view(row@))),
{
    let ghost all = row@;
    let ghost cells = cells_view(row@);
    let mut fields: Vec<Field> = Vec::new();
    for c in it: row
        invariant
            it.seq() == all,
            cells == cells_view(all),
            all.len() == 12,
            fields.len() == it.index(),
            first_bad_column(cells, 0) == first_bad_column(cells, fields.len() as int),
            forall|j: int| 0 <= j < fields.len() ==> task_column_ok(j, #[trigger] cells[j]),
            forall|j: int| 0 <= j < fields.len() ==> field_holds(#[trigger] fields@[j], cells[j]),
    {
        let i = fields.len();
        assert(c@ == cells[i as int]);
        let ghost before = fields@;
        let f = match read_column(i, c) {
            Ok(f) => f,
            Err(m) => {
                return Err(m);
            },
        };
        let ghost g = f;
        fields.push(f);
        assert(fields@ == before.push(g));
    }
    let ghost fs = fields@;
    let source_metadata = take_optional_text(fields.pop().unwrap());
    let repo = take_optional_text(fields.pop().unwrap());
    let body_md = take_optional_text(fields.pop().unwrap());
    let updated_at = take_text(fields.pop().unwrap());
    let priority = take_optional_text(fields.pop().unwrap());
    let assignee = take_optional_text(fields.pop().unwrap());
    let url = take_text(fields.pop().unwrap());
    let status = take_optional_text(fields.pop().unwrap());
    let title = take_text(fields.pop().unwrap());
    let source_id = take_text(fields.pop().unwrap());
    let source = take_text(fields.pop().unwrap());
    let id = match fields.pop().unwrap() {
        Field::Integer(v) => v,
        _ => 0,
    };
    let t = Task {
        id,
        source,
        source_id,
        title,
        status,
        url,
        assignee,
        priority,
        updated_at,
        body_md,
        repo,
        source_metadata,
    };
    proof {
        assert(field_holds(fs[0], cells[0]));
        assert(field_holds(fs[1], cells[1]));
        assert(field_holds(fs[2], cells[2]));
        assert(field_holds(fs[3], cells[3]));
        assert(field_holds(fs[4], cells[4]));
        assert(field_holds(fs[5], cells[5]));
        assert(field_holds(fs[6], cells[6]));
        assert(field_holds(fs[7], cells[7]));
        assert(field_holds(fs[8], cells[8]));
        assert(field_holds(fs[9], cells[9]));
        assert(field_holds(fs[10], cells[10]));
        assert(field_holds(fs[11], cells[11]));
    }
    Ok(t)
}

/// Whether row `i` of a query answer can be read as a task: it was read
/// in full and holds one.
pub open spec fn row_read(rows: Seq<Result<Seq<CellView>, Seq<char>>>, i: int) -> bool {
    rows[i] matches Ok(cells) && row_holds_task(cells)
}

/// The first row from `i` on that cannot be read as a task, or the number
/// of rows where there is none.
pub open spec fn first_bad_row(rows: Seq<Result<Seq<CellView>, Seq<char>>>, i: int) -> int
    decreases rows.len() - i,
{
    if i >= rows.len() || i < 0 {
        rows.len() as int
    } else if !row_read(rows, i) {
        i
    } else {
        first_bad_row(rows, i + 1)
    }
}

pub proof fn lemma_first_bad_row(rows: Seq<Result<Seq<CellView>, Seq<char>>>, i: int)
    requires
        0 <= i <= rows.len(),
    ensures
        i <= first_bad_row(rows, i) <= rows.len(),
        forall|j: int| i <= j < first_bad_row(rows, i) ==> #[trigger] row_read(rows, j),
        first_bad_row(rows, i) < rows.len() ==> !row_read(rows, first_bad_row(rows, i)),
    decreases rows.len() - i,
{
    if i < rows.len() && row_read(rows, i) {
        lemma_first_bad_row(rows, i + 1);
    }
}

/// What reading the answer of the task query gives: the error that stopped
/// it; or the task of every row, in order; or, at the first row that cannot
/// be read as a task, the error of its step or of its first bad column.
pub open spec fn tasks_read(
    answer: Result<Seq<Result<Seq<CellView>, Seq<char>>>, Seq<char>>,
    r: Result<Vec<Task>, String>,
) -> bool {
    match answer {
        Err(m) => r matches Err(x) && x@ == m,
        Ok(rows) => {
            let k = first_bad_row(rows, 0);
            if k == rows.len() {
                r matches Ok(ts) && ts.len() == rows.len() && forall|i: int|
                    0 <= i < rows.len() ==> task_of_row(#[trigger] ts@[i], rows[i]->Ok_0)
            } else {
                match rows[k] {
                    Err(m) => r matches Err(x) && x@ == m,
                    Ok(cells) => r matches Err(x) && x@ == row_error(cells),
                }
            }
        },
    }
}

/// Reads the rows of the task query as tasks, in order; the first row that
/// cannot be read as a task makes it fail.
pub fn tasks_from_rows(rows: Vec<Result<Vec<SqlCell>, String>>) -> (r: Result<Vec<Task>, String>)
    requires
        forall|i: int| 0 <= i < rows.len() ==> (#[trigger] rows@[i] matches Ok(cells) ==> cells.len() == 12),
    ensures
        tasks_read(Ok(rows_view(rows@)), r),
{
    let ghost all = rows@;
    let ghost views = rows_view(rows@);
    proof {
        lemma_first_bad_row(views, 0);
    }
    let mut tasks: Vec<Task> = Vec::new();
    for row in it: rows
        invariant
            it.seq() == all,
            views == rows_view(all),
            tasks.len() == it.index(),
            forall|i: int| 0 <= i < all.len() ==> (#[trigger] all[i] matches Ok(cells) ==> cells.len() == 12),
            first_bad_row(views, 0) == first_bad_row(views, tasks.len() as int),
            forall|i: int| 0 <= i < tasks.len() ==> #[trigger] views[i] is Ok,
            forall|i: int| 0 <= i < tasks.len() ==> task_of_row(#[trigger] tasks@[i], views[i]->Ok_0),
    {
        let i = tasks.len();
        proof {
            lemma_first_bad_row(views, i as int);
            assert(views[i as int] == row_view(row));
        }
        let cells = match row {
            Ok(cells) => cells,
            Err(m) => {
                return Err(m);
            },
        };
        let ghost cv = cells_view(cells@);
        assert(views[i as int] == Ok::<Seq<CellView>, Seq<char>>(cv));
        let t = match task_from_row(cells) {
            Ok(t) => t,
            Err(m) => {
                return Err(m);
            },
        };
        let ghost before = tasks@;
        let ghost g = t;
        tasks.push(t);
        assert(tasks@ == before.push(g));
    }
    Ok(tasks)
}

} // verus!

verus! {

/// The parameter of an optional text: the text, or `NULL`.
pub open spec fn text_param(o: Option<Seq<char>>) -> ParamView {
    match o {
        Some(s) => ParamView::Text(s),
        None => ParamView::Null,
    }
}

/// The characters of an optional string slice.
pub open spec fn optional_param(o: Option<&str>) -> Option<Seq<char>> {
    match o {
        Some(s) => Some(s@),
        None => None,
    }
}

/// The parameter of an optional text.
fn text_or_null(o: Option<&str>) -> (r: SqlParam)
    ensures
        r@ == text_param(optional_param(o)),
{
    match o {
        Some(s) => SqlParam::Text(s.to_owned()),
        None => SqlParam::Null,
    }
}

/// The parameters of the task upsert, in the order of its placeholders.
pub open spec fn task_param_views(
    source: Seq<char>,
    source_id: Seq<char>,
    title: Seq<char>,
    status: Option<Seq<char>>,
    url: Seq<char>,
    assignee: Option<Seq<char>>,
    priority: Option<Seq<char>>,
    updated_at: Seq<char>,
    body_md: Option<Seq<char>>,
    repo: Option<Seq<char>>,
    source_metadata: Option<Seq<char>>,
) -> Seq<ParamView> {
    seq![
        ParamView::Text(source),
        ParamView::Text(source_id),
        ParamView::Text(title),
        text_param(status),
        ParamView::Text(url),
        text_param(assignee),
        text_param(priority),
        ParamView::Text(updated_at),
        text_param(body_md),
        text_param(repo),
        text_param(source_metadata),
    ]
}

/// The parameters of the task upsert.
pub fn task_params(
    source: &str,
    source_id: &str,
    title: &str,
    status: Option<&str>,
    url: &str,
    assignee: Option<&str>,
    priority: Option<&str>,
    updated_at: &str,
    body_md: Option<&str>,
    repo: Option<&str>,
    source_metadata: Option<&str>,
) -> (r: Vec<SqlParam>)
    ensures
        param_views(r@) == task_param_views(
            source@,
            source_id@,
            title@,
            optional_param(status),
            url@,
            optional_param(assignee),
            optional_param(priority),
            updated_at@,
            optional_param(body_md),
            optional_param(repo),
            optional_param(source_metadata),
        ),
{
    let mut r: Vec<SqlParam> = Vec::new();
    r.push(text_or_null(Some(source)));
    r.push(text_or_null(Some(source_id)));
    r.push(text_or_null(Some(title)));
    r.push(text_or_null(status));
    r.push(text_or_null(Some(url)));
    r.push(text_or_null(assignee));
    r.push(text_or_null(priority));
    r.push(text_or_null(Some(updated_at)));
    r.push(text_or_null(body_md));
    r.push(text_or_null(repo));
    r.push(text_or_null(source_metadata));
    assert(param_views(r@) =~= task_param_views(
        source@,
        source_id@,
        title@,
        optional_param(status),
        url@,
        optional_param(assignee),
        optional_param(priority),
        updated_at@,
        optional_param(body_md),
        optional_param(repo),
        optional_param(source_metadata),
    ));
    r
}

/// The value stored for a sync run's outcome: 1 for success, 0 for failure.
pub open spec fn ok_value(ok: bool) -> i64 {
    if ok {
        1
    } else {
        0
    }
}

/// The value stored for a sync run's outcome.
pub fn ok_flag(ok: bool) -> (r: i64)
    ensures
        r == ok_value(ok),
{
    if ok {
        1
    } else {
        0
    }
}

/// The parameters of the statement that ends a sync run.
pub open spec fn finish_params(run_id: i64, ok: bool, error_msg: Option<Seq<char>>) -> Seq<ParamView> {
    seq![ParamView::Integer(ok_value(ok)), text_param(error_msg), ParamView::Integer(run_id)]
}

/// `after` is `before` with one more exchange, `op`.
pub open spec fn issued(after: Seq<DbOp>, before: Seq<DbOp>, op: DbOp) -> bool {
    after == before.push(op)
}

/// The last exchange of `after`, which is `before` with one more exchange.
pub open spec fn one_more(after: Seq<DbOp>, before: Seq<DbOp>) -> bool {
    after.len() > 0 && after == before.push(after.last())
}

/// The exchanges that end the schema setup: the creation of the tables.
pub open spec fn create_tables_steps(ops: Seq<DbOp>, error: Option<Seq<char>>) -> bool {
    ops == seq![DbOp::Batch { sql: CREATE_TABLES@, error }]
}

/// The exchanges of a schema reset: drop the tasks and record the current
/// version, then create the tables.
pub open spec fn reset_steps(ops: Seq<DbOp>, error: Option<Seq<char>>) -> bool {
    &&& ops.len() >= 1
    &&& ops[0] is Batch
    &&& ops[0] == DbOp::Batch { sql: RESET_TASKS@, error: ops[0]->Batch_error }
    &&& match ops[0]->Batch_error {
        Some(m) => ops.len() == 1 && error == Some(m),
        None => {
            &&& ops.len() >= 2
            &&& ops[1] is Execute
            &&& ops[1] == DbOp::Execute {
                sql: INSERT_VERSION@,
                params: seq![ParamView::Integer(SCHEMA_VERSION)],
                error: ops[1]->Execute_error,
            }
            &&& match ops[1]->Execute_error {
                Some(m) => ops.len() == 2 && error == Some(m),
                None => create_tables_steps(ops.subrange(2, ops.len() as int), error),
            }
        },
    }
}

/// The exchanges of the schema setup: create the version table, read the
/// stored version, reset where it is not [`SCHEMA_VERSION`], and create
/// the tables; it stops at the first failure, whose error is `error`.
pub open spec fn schema_steps(ops: Seq<DbOp>, error: Option<Seq<char>>) -> bool {
    &&& ops.len() >= 1
    &&& ops[0] is Batch
    &&& ops[0] == DbOp::Batch { sql: CREATE_VERSION_TABLE@, error: ops[0]->Batch_error }
    &&& match ops[0]->Batch_error {
        Some(m) => ops.len() == 1 && error == Some(m),
        None => {
            &&& ops.len() >= 2
            &&& ops[1] is QueryFirst
            &&& ops[1]->QueryFirst_sql == SELECT_VERSION@
            &&& ops[1]->QueryFirst_params == Seq::<ParamView>::empty()
            &&& if reset_needed(ops[1]->QueryFirst_answer) {
                reset_steps(ops.subrange(2, ops.len() as int), error)
            } else {
                create_tables_steps(ops.subrange(2, ops.len() as int), error)
            }
        },
    }
}

/// The exchanges of the start of a sync run: insert the run, then read its
/// rowid; `r` is the id or the error of the insert.
pub open spec fn start_steps(ops: Seq<DbOp>, source: Seq<char>, r: Result<i64, Seq<char>>) -> bool {
    &&& ops.len() >= 1
    &&& ops[0] is Execute
    &&& ops[0] == DbOp::Execute {
        sql: INSERT_SYNC_RUN@,
        params: seq![ParamView::Text(source)],
        error: ops[0]->Execute_error,
    }
    &&& match ops[0]->Execute_error {
        Some(m) => ops.len() == 1 && r == Err::<i64, Seq<char>>(m),
        None => ops.len() == 2 && ops[1] is LastInsertRowid && r == Ok::<i64, Seq<char>>(
            ops[1]->id,
        ),
    }
}

/// The task cache: a connection to its SQLite database, with the record
/// of every exchange with it.
pub struct Db {
    sql: Sqlite,
}

impl View for Db {
    type V = Seq<DbOp>;

    closed spec fn view(&self) -> Seq<DbOp> {
        self.sql@
    }
}

impl Db {
    /// Opens the database at `db_path` and brings its schema up to
    /// [`SCHEMA_VERSION`]; the directory must exist. The new cache's record
    /// starts with the opening of `db_path`, followed by the schema setup.
    /// Where the opening or a step of the setup fails, the error's text is
    /// handed back and the connection is closed; that text comes from
    /// SQLite and is left unstated.
    pub fn new(db_path: &str) -> (r: Result<Db, String>)
        ensures
            r matches Ok(db) ==> {
                &&& db@.len() >= 1
                &&& db@[0] == DbOp::Open { path: db_path@ }
                &&& schema_steps(db@.subrange(1, db@.len() as int), None)
            },
    {
        let sql = Sqlite::open(db_path)?;
        let mut db = Db { sql };
        let ghost opened = db@;
        db.init_schema()?;
        assert(db@[0] == db@.subrange(0, 1)[0]);
        assert(opened[0] == DbOp::Open { path: db_path@ });
        Ok(db)
    }

    /// Creates the tables; where the stored schema version is not
    /// [`SCHEMA_VERSION`], first drops the tasks (they are only a cache)
    /// and records the current version.
    fn init_schema(&mut self) -> (r: Result<(), String>)
        ensures
            old(self)@.len() < final(self)@.len(),
            final(self)@.subrange(0, old(self)@.len() as int) == old(self)@,
            schema_steps(
                final(self)@.subrange(old(self)@.len() as int, final(self)@.len() as int),
                error_of(r),
            ),
    {
        let ghost start = self@;
        let created = self.sql.batch(CREATE_VERSION_TABLE);
        let ghost o0 = self@.last();
        if let Err(m) = created {
            proof {
                assert(self@.subrange(start.len() as int, self@.len() as int) =~= seq![o0]);
                assert(self@.subrange(0, start.len() as int) =~= start);
            }
            return Err(m);
        }
        let no_params: Vec<SqlParam> = Vec::new();
        assert(param_views(no_params@) =~= Seq::<ParamView>::empty());
        let current = self.sql.query_first(SELECT_VERSION, &no_params);
        let ghost o1 = self@.last();
        let r = if schema_needs_reset(&current) {
            let reset = self.sql.batch(RESET_TASKS);
            let ghost o2 = self@.last();
            if let Err(m) = reset {
                proof {
                    let n = self@.subrange(start.len() as int, self@.len() as int);
                    assert(n =~= seq![o0, o1, o2]);
                    assert(n.subrange(2, n.len() as int) =~= seq![o2]);
                    assert(self@.subrange(0, start.len() as int) =~= start);
                }
                return Err(m);
            }
            let mut params: Vec<SqlParam> = Vec::new();
            params.push(SqlParam::Integer(SCHEMA_VERSION));
            assert(param_views(params@) =~= seq![ParamView::Integer(SCHEMA_VERSION)]);
            let inserted = self.sql.execute(INSERT_VERSION, &params);
            let ghost o3 = self@.last();
            if let Err(m) = inserted {
                proof {
                    let n = self@.subrange(start.len() as int, self@.len() as int);
                    assert(n =~= seq![o0, o1, o2, o3]);
                    assert(n.subrange(2, n.len() as int) =~= seq![o2, o3]);
                    assert(self@.subrange(0, start.len() as int) =~= start);
                }
                return Err(m);
            }
            let r = self.sql.batch(CREATE_TABLES);
            let ghost o4 = self@.last();
            proof {
                let n = self@.subrange(start.len() as int, self@.len() as int);
                assert(n =~= seq![o0, o1, o2, o3, o4]);
                let rest = n.subrange(2, n.len() as int);
                assert(rest =~= seq![o2, o3, o4]);
                assert(rest.subrange(2, rest.len() as int) =~= seq![o4]);
            }
            r
        } else {
            let r = self.sql.batch(CREATE_TABLES);
            let ghost o2 = self@.last();
            proof {
                let n = self@.subrange(start.len() as int, self@.len() as int);
                assert(n =~= seq![o0, o1, o2]);
                assert(n.subrange(2, n.len() as int) =~= seq![o2]);
            }
            r
        };
        proof {
            assert(self@.subrange(0, start.len() as int) =~= start);
        }
        r
    }

    /// Inserts a task, or updates every field of the task with the same
    /// source and source id: one upsert statement with the arguments as
    /// its parameters; its error where it fails.
    pub fn upsert_task(
        &mut self,
        source: &str,
        source_id: &str,
        title: &str,
        status: Option<&str>,
        url: &str,
        assignee: Option<&str>,
        priority: Option<&str>,
        updated_at: &str,
        body_md: Option<&str>,
        repo: Option<&str>,
        source_metadata: Option<&str>,
    ) -> (r: Result<(), String>)
        ensures
            issued(
                final(self)@,
                old(self)@,
                DbOp::Execute {
                    sql: UPSERT_TASK@,
                    params: task_param_views(
                        source@,
                        source_id@,
                        title@,
                        optional_param(status),
                        url@,
                        optional_param(assignee),
                        optional_param(priority),
                        updated_at@,
                        optional_param(body_md),
                        optional_param(repo),
                        optional_param(source_metadata),
                    ),
                    error: error_of(r),
                },
            ),
    {
        let params = task_params(
            source,
            source_id,
            title,
            status,
            url,
            assignee,
            priority,
            updated_at,
            body_md,
            repo,
            source_metadata,
        );
        self.sql.execute(UPSERT_TASK, &params)
    }

    /// The tasks of a source, most recently updated first: one query with
    /// the source as its parameter, each row read as a task.
    pub fn get_tasks_by_source(&mut self, source: &str) -> (r: Result<Vec<Task>, String>)
        ensures
            one_more(final(self)@, old(self)@),
            final(self)@.last() is QueryAll,
            final(self)@.last()->QueryAll_sql == SELECT_TASKS@,
            final(self)@.last()->QueryAll_params == seq![ParamView::Text(source@)],
            tasks_read(final(self)@.last()->QueryAll_answer, r),
    {
        let mut params: Vec<SqlParam> = Vec::new();
        params.push(text_or_null(Some(source)));
        assert(param_views(params@) =~= seq![ParamView::Text(source@)]);
        match self.sql.query_all(SELECT_TASKS, &params, 12) {
            Ok(rows) => tasks_from_rows(rows),
            Err(e) => Err(e),
        }
    }

    /// Deletes the tasks of a source: one statement with the source as its
    /// parameter; its error where it fails.
    pub fn delete_tasks_by_source(&mut self, source: &str) -> (r: Result<(), String>)
        ensures
            issued(
                final(self)@,
                old(self)@,
                DbOp::Execute {
                    sql: DELETE_TASKS@,
                    params: seq![ParamView::Text(source@)],
                    error: error_of(r),
                },
            ),
    {
        let mut params: Vec<SqlParam> = Vec::new();
        params.push(text_or_null(Some(source)));
        assert(param_views(params@) =~= seq![ParamView::Text(source@)]);
        self.sql.execute(DELETE_TASKS, &params)
    }

    /// Records the start of a sync run of a source; the run's id, the rowid
    /// of the insert.
    pub fn record_sync_start(&mut self, source: &str) -> (r: Result<i64, String>)
        ensures
            old(self)@.len() <= final(self)@.len(),
            final(self)@.subrange(0, old(self)@.len() as int) == old(self)@,
            start_steps(
                final(self)@.subrange(old(self)@.len() as int, final(self)@.len() as int),
                source@,
                match r {
                    Ok(id) => Ok(id),
                    Err(e) => Err(e@),
                },
            ),
    {
        let ghost start = self@;
        let mut params: Vec<SqlParam> = Vec::new();
        params.push(text_or_null(Some(source)));
        assert(param_views(params@) =~= seq![ParamView::Text(source@)]);
        let inserted = self.sql.execute(INSERT_SYNC_RUN, &params);
        let ghost o0 = self@.last();
        if let Err(m) = inserted {
            proof {
                assert(self@.subrange(start.len() as int, self@.len() as int) =~= seq![o0]);
                assert(self@.subrange(0, start.len() as int) =~= start);
            }
            return Err(m);
        }
        let id = self.sql.last_insert_rowid();
        let ghost o1 = self@.last();
        proof {
            assert(self@.subrange(start.len() as int, self@.len() as int) =~= seq![o0, o1]);
            assert(self@.subrange(0, start.len() as int) =~= start);
        }
        Ok(id)
    }

    /// Records the end of a sync run: whether it succeeded, and its error
    /// message; one statement, its error where it fails.
    pub fn record_sync_finish(&mut self, run_id: i64, ok: bool, error_msg: Option<&str>) -> (r: Result<(), String>)
        ensures
            issued(
                final(self)@,
                old(self)@,
                DbOp::Execute {
                    sql: FINISH_SYNC_RUN@,
                    params: finish_params(run_id, ok, optional_param(error_msg)),
                    error: error_of(r),
                },
            ),
    {
        let mut params: Vec<SqlParam> = Vec::new();
        params.push(SqlParam::Integer(ok_flag(ok)));
        params.push(text_or_null(error_msg));
        params.push(SqlParam::Integer(run_id));
        proof {
            assert(param_views(params@) =~= finish_params(run_id, ok, optional_param(error_msg)));
        }
        self.sql.execute(FINISH_SYNC_RUN, &params)
    }

    /// The value of a setting, if it is set: one lookup with the key as its
    /// parameter, read as an optional text.
    pub fn get_setting(&mut self, key: &str) -> (r: Result<Option<String>, String>)
        ensures
            one_more(final(self)@, old(self)@),
            final(self)@.last() is QueryFirst,
            final(self)@.last()->QueryFirst_sql == SELECT_SETTING@,
            final(self)@.last()->QueryFirst_params == seq![ParamView::Text(key@)],
            text_result(r) == text_lookup(final(self)@.last()->QueryFirst_answer, "value"@),
    {
        let mut params: Vec<SqlParam> = Vec::new();
        params.push(text_or_null(Some(key)));
        assert(param_views(params@) =~= seq![ParamView::Text(key@)]);
        let l = self.sql.query_first(SELECT_SETTING, &params);
        optional_text(l, "value")
    }

    /// Sets a setting, replacing its value; one statement, its error where it fails.
    pub fn set_setting(&mut self, key: &str, value: &str) -> (r: Result<(), String>)
        ensures
            issued(
                final(self)@,
                old(self)@,
                DbOp::Execute {
                    sql: UPSERT_SETTING@,
                    params: seq![ParamView::Text(key@), ParamView::Text(value@)],
                    error: error_of(r),
                },
            ),
    {
        let mut params: Vec<SqlParam> = Vec::new();
        params.push(text_or_null(Some(key)));
        params.push(text_or_null(Some(value)));
        proof {
            assert(param_views(params@) =~= seq![ParamView::Text(key@), ParamView::Text(value@)]);
        }
        self.sql.execute(UPSERT_SETTING, &params)
    }

    /// When the last successful sync run of a source finished, if there was
    /// one: one lookup with the source as its parameter, read as an optional text.
    pub fn get_last_successful_sync(&mut self, source: &str) -> (r: Result<Option<String>, String>)
        ensures
            one_more(final(self)@, old(self)@),
            final(self)@.last() is QueryFirst,
            final(self)@.last()->QueryFirst_sql == SELECT_LAST_SUCCESS@,
            final(self)@.last()->QueryFirst_params == seq![ParamView::Text(source@)],
            text_result(r) == text_lookup(final(self)@.last()->QueryFirst_answer, "finished_at"@),
    {
        let mut params: Vec<SqlParam> = Vec::new();
        params.push(text_or_null(Some(source)));
        assert(param_views(params@) =~= seq![ParamView::Text(source@)]);
        let l = self.sql.query_first(SELECT_LAST_SUCCESS, &params);
        optional_text(l, "finished_at")
    }

    /// Whether a sync run of a source has started and not finished: one
    /// count with the source as its parameter.
    pub fn is_sync_in_progress(&mut self, source: &str) -> (r: Result<bool, String>)
        ensures
            one_more(final(self)@, old(self)@),
            final(self)@.last() is QueryFirst,
            final(self)@.last()->QueryFirst_sql == COUNT_RUNNING@,
            final(self)@.last()->QueryFirst_params == seq![ParamView::Text(source@)],
            bool_result(r) == count_lookup(final(self)@.last()->QueryFirst_answer),
    {
        let mut params: Vec<SqlParam> = Vec::new();
        params.push(text_or_null(Some(source)));
        assert(param_views(params@) =~= seq![ParamView::Text(source@)]);
        let l = self.sql.query_first(COUNT_RUNNING, &params);
        sync_in_progress(l)
    }
}

} // verus!

verus! {

/// The column value that SQLite stores for a parameter bound to it: a text
/// in UTF-8, an integer or a null as it is.
pub open spec fn stored_cell(p: ParamView) -> CellView {
    match p {
        ParamView::Null => CellView::Null,
        ParamView::Integer(i) => CellView::Integer(i),
        ParamView::Text(s) => CellView::Text(vstd::utf8::encode_utf8(s)),
    }
}

/// A row of the task query that holds what an upsert bound: the row's id,
/// then, column after column, the value bound to the placeholder of the
/// same column in the upsert (the task query lists the columns after the
/// id in the order of the upsert's column list).
pub open spec fn row_of_upsert(row: Seq<CellView>, id: i64, params: Seq<ParamView>) -> bool {
    &&& row.len() == 12
    &&& params.len() == 11
    &&& row[0] == CellView::Integer(id)
    &&& forall|k: int| 1 <= k < 12 ==> #[trigger] row[k] == stored_cell(params[k - 1])
}

proof fn lemma_stored_text(s: Seq<char>)
    ensures
        cell_text(stored_cell(ParamView::Text(s))) == Some(s),
{
    vstd::utf8::encode_utf8_valid_utf8(s);
    vstd::utf8::encode_utf8_decode_utf8(s);
}

proof fn lemma_stored_optional_text(o: Option<Seq<char>>)
    ensures
        cell_text(stored_cell(text_param(o))) == o,
        stored_cell(text_param(o)) is Null || cell_text(stored_cell(text_param(o))) is Some,
{
    if let Some(s) = o {
        lemma_stored_text(s);
    }
}

/// What an upsert writes reads back unchanged: a row that holds the values
/// bound by the upsert of a task can be read as a task, and the task read
/// from it has every field that was passed to the upsert, each in its own
/// field.
pub proof fn lemma_upserted_task_reads_back(
    source: Seq<char>,
    source_id: Seq<char>,
    title: Seq<char>,
    status: Option<Seq<char>>,
    url: Seq<char>,
    assignee: Option<Seq<char>>,
    priority: Option<Seq<char>>,
    updated_at: Seq<char>,
    body_md: Option<Seq<char>>,
    repo: Option<Seq<char>>,
    source_metadata: Option<Seq<char>>,
    id: i64,
    row: Seq<CellView>,
    t: Task,
)
    requires
        row_of_upsert(
            row,
            id,
            task_param_views(
                source,
                source_id,
                title,
                status,
                url,
                assignee,
                priority,
                updated_at,
                body_md,
                repo,
                source_metadata,
            ),
        ),
    ensures
        row_holds_task(row),
        task_of_row(t, row) ==> {
            &&& t.id == id
            &&& t.source@ == source
            &&& t.source_id@ == source_id
            &&& t.title@ == title
            &&& opt_chars(t.status) == status
            &&& t.url@ == url
            &&& opt_chars(t.assignee) == assignee
            &&& opt_chars(t.priority) == priority
            &&& t.updated_at@ == updated_at
            &&& opt_chars(t.body_md) == body_md
            &&& opt_chars(t.repo) == repo
            &&& opt_chars(t.source_metadata) == source_metadata
        },
{
    let params = task_param_views(
        source,
        source_id,
        title,
        status,
        url,
        assignee,
        priority,
        updated_at,
        body_md,
        repo,
        source_metadata,
    );
    assert(row[1] == stored_cell(params[0]));
    assert(row[2] == stored_cell(params[1]));
    assert(row[3] == stored_cell(params[2]));
    assert(row[4] == stored_cell(params[3]));
    assert(row[5] == stored_cell(params[4]));
    assert(row[6] == stored_cell(params[5]));
    assert(row[7] == stored_cell(params[6]));
    assert(row[8] == stored_cell(params[7]));
    assert(row[9] == stored_cell(params[8]));
    assert(row[10] == stored_cell(params[9]));
    assert(row[11] == stored_cell(params[10]));
    lemma_stored_text(source);
    lemma_stored_text(source_id);
    lemma_stored_text(title);
    lemma_stored_optional_text(status);
    lemma_stored_text(url);
    lemma_stored_optional_text(assignee);
    lemma_stored_optional_text(priority);
    lemma_stored_text(updated_at);
    lemma_stored_optional_text(body_md);
    lemma_stored_optional_text(repo);
    lemma_stored_optional_text(source_metadata);
    assert(first_bad_column(row, 12) == 12);
    assert(first_bad_column(row, 11) == 12);
    assert(first_bad_column(row, 10) == 12);
    assert(first_bad_column(row, 9) == 12);
    assert(first_bad_column(row, 8) == 12);
    assert(first_bad_column(row, 7) == 12);
    assert(first_bad_column(row, 6) == 12);
    assert(first_bad_column(row, 5) == 12);
    assert(first_bad_column(row, 4) == 12);
    assert(first_bad_column(row, 3) == 12);
    assert(first_bad_column(row, 2) == 12);
    assert(first_bad_column(row, 1) == 12);
    assert(first_bad_column(row, 0) == 12);
}

/// Whether a lookup found the version [`SCHEMA_VERSION`].
pub open spec fn found_current_version(l: LookupView) -> bool {
    l matches LookupView::Found(CellView::Integer(v)) && v == SCHEMA_VERSION
}

/// Whether an exchange is the batch that drops the tasks.
pub open spec fn drops_tasks(op: DbOp) -> bool {
    op matches DbOp::Batch { sql, .. } && sql == RESET_TASKS@
}

/// Whether exchanges `k` and `k + 1` dropped the tasks and then stored
/// [`SCHEMA_VERSION`], both with success.
pub open spec fn stores_current_version(ops: Seq<DbOp>, k: int) -> bool {
    &&& 0 <= k
    &&& k + 1 < ops.len()
    &&& ops[k] == DbOp::Batch { sql: RESET_TASKS@, error: None }
    &&& ops[k + 1] == DbOp::Execute {
        sql: INSERT_VERSION@,
        params: seq![ParamView::Integer(SCHEMA_VERSION)],
        error: None,
    }
}

/// After a successful schema setup the stored schema version is
/// [`SCHEMA_VERSION`]: either the version read at the start was already
/// that one, and then no tasks were dropped; or the tasks were dropped and
/// that version was then inserted, with success. So a later setup of the
/// same database reads that version and keeps the tasks.
pub proof fn lemma_setup_stores_version(ops: Seq<DbOp>)
    requires
        schema_steps(ops, None),
    ensures
        ops.len() >= 3,
        (ops[1] is QueryFirst),
        ops[ops.len() - 1] == (DbOp::Batch { sql: CREATE_TABLES@, error: None }),
        found_current_version(ops[1]->QueryFirst_answer) ==> forall|k: int|
            0 <= k < ops.len() ==> !drops_tasks(#[trigger] ops[k]),
        !found_current_version(ops[1]->QueryFirst_answer) ==> stores_current_version(ops, 2),
{
    let rest = ops.subrange(2, ops.len() as int);
    if reset_needed(ops[1]->QueryFirst_answer) {
        assert(rest.subrange(2, rest.len() as int) =~= ops.subrange(4, ops.len() as int));
        assert(ops[2] == rest[0]);
        assert(ops[3] == rest[1]);
        assert(ops[4] == rest[2]);
        assert(ops.len() == 5);
        assert(rest.subrange(2, rest.len() as int)[0] == rest[2]);
        assert(ops[ops.len() - 1] == ops[4]);
    } else {
        assert(ops[0]->Batch_error is None);
        assert(ops.len() >= 2);
        assert(create_tables_steps(rest, None));
        assert(rest.len() == 1);
        assert(ops[2] == rest[0]);
        assert(ops.len() == 3);
        assert(ops[ops.len() - 1] == ops[2]);
        assert forall|k: int| 0 <= k < ops.len() implies !drops_tasks(#[trigger] ops[k]) by {
            reveal_strlit("
                DROP TABLE IF EXISTS tasks;
                DELETE FROM schema_version;
                ");
            assert(RESET_TASKS@ == "
                DROP TABLE IF EXISTS tasks;
                DELETE FROM schema_version;
                "@);
            assert(RESET_TASKS@[0] == '\n');
            if k == 0 {
                reveal_strlit("CREATE TABLE IF NOT EXISTS schema_version (version INTEGER PRIMARY KEY);");
                assert(CREATE_VERSION_TABLE@ == "CREATE TABLE IF NOT EXISTS schema_version (version INTEGER PRIMARY KEY);"@);
                assert(CREATE_VERSION_TABLE@[0] != RESET_TASKS@[0]);
            } else if k == 2 {
                reveal_strlit("
            CREATE TABLE IF NOT EXISTS tasks (
                id INTEGER PRIMARY KEY AUTOINCREMENT,
                source TEXT NOT NULL CHECK(source IN ('linear', 'github')),
                source_id TEXT NOT NULL,
                title TEXT NOT NULL,
                status TEXT,
                url TEXT NOT NULL,
                assignee TEXT,
                priority TEXT,
                updated_at TEXT NOT NULL,
                body_md TEXT,
                repo TEXT,
                source_metadata TEXT,
                UNIQUE(source, source_id)
            );
            CREATE TABLE IF NOT EXISTS sync_runs (
                id INTEGER PRIMARY KEY AUTOINCREMENT,
                started_at TEXT NOT NULL,
                finished_at TEXT,
                source TEXT NOT NULL,
                ok INTEGER,
                error_msg TEXT
            );
            CREATE TABLE IF NOT EXISTS settings (
                key TEXT PRIMARY KEY,
                value TEXT NOT NULL
            );
            ");
                assert(CREATE_TABLES@[13] != RESET_TASKS@[13]);
            }
        }
    }
}

/// The upsert of a task is not the statement that ends a sync run.
pub proof fn lemma_upsert_is_not_finish()
    ensures
        UPSERT_TASK@ != FINISH_SYNC_RUN@,
{
    reveal_strlit("INSERT INTO tasks (source, source_id, title, status, url, assignee, priority, updated_at, body_md, repo, source_metadata)
             VALUES (?1, ?2, ?3, ?4, ?5, ?6, ?7, ?8, ?9, ?10, ?11)
             ON CONFLICT(source, source_id) DO UPDATE SET
                title = excluded.title,
                status = excluded.status,
                url = excluded.url,
                assignee = excluded.assignee,
                priority = excluded.priority,
                updated_at = excluded.updated_at,
                body_md = excluded.body_md,
                repo = excluded.repo,
                source_metadata = excluded.source_metadata");
    reveal_strlit("UPDATE sync_runs SET finished_at = datetime('now'), ok = ?1, error_msg = ?2 WHERE id = ?3");
    assert(UPSERT_TASK@[0] != FINISH_SYNC_RUN@[0]);
}

} // verus!
