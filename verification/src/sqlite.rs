//! A connection to an SQLite database, with the ghost record of every
//! exchange made through it.
//!
//! The record is written by the exchanges themselves and by nothing else:
//! the only functions that change it are the trusted calls into `rusqlite`
//! below, each of which appends the one exchange it made, and the opening
//! of the connection, which starts it.

use vstd::prelude::*;
use rusqlite::types::{Value, ValueRef};

verus! {

/// A connection to an SQLite database, opaque to verification.
#[verifier::external_type_specification]
#[verifier::external_body]
pub struct ExConnection(rusqlite::Connection);

/// A value of `rusqlite` bound to a statement, opaque to verification.
#[verifier::external_type_specification]
#[verifier::external_body]
pub struct ExSqlValue(Value);

/// A result row of `rusqlite`, opaque to verification.
#[verifier::external_type_specification]
#[verifier::external_body]
pub struct ExRow<'stmt>(rusqlite::Row<'stmt>);

/// An error of `rusqlite`, opaque to verification.
#[verifier::external_type_specification]
#[verifier::external_body]
pub struct ExSqlError(rusqlite::Error);

/// A parameter of a statement.
#[derive(Clone, Debug)]
pub enum SqlParam {
    Null,
    Integer(i64),
    Text(String),
}

/// The mathematical value of a [`SqlParam`].
pub enum ParamView {
    Null,
    Integer(i64),
    Text(Seq<char>),
}

impl View for SqlParam {
    type V = ParamView;

    open spec fn view(&self) -> ParamView {
        match self {
            SqlParam::Null => ParamView::Null,
            SqlParam::Integer(i) => ParamView::Integer(*i),
            SqlParam::Text(s) => ParamView::Text(s@),
        }
    }
}

/// The values of the parameters, in order.
pub open spec fn param_views(params: Seq<SqlParam>) -> Seq<ParamView> {
    params.map_values(|p: SqlParam| p@)
}

/// A column value of a result row as SQLite stores it, by storage class: a
/// text is kept as its bytes, which need not be UTF-8; the payload of a
/// floating-point number or a blob is not kept.
#[derive(Clone, Debug)]
pub enum SqlCell {
    Null,
    Integer(i64),
    Real,
    Text(Vec<u8>),
    Blob,
}

/// The mathematical value of a [`SqlCell`].
pub enum CellView {
    Null,
    Integer(i64),
    Real,
    Text(Seq<u8>),
    Blob,
}

impl View for SqlCell {
    type V = CellView;

    open spec fn view(&self) -> CellView {
        match self {
            SqlCell::Null => CellView::Null,
            SqlCell::Integer(i) => CellView::Integer(*i),
            SqlCell::Real => CellView::Real,
            SqlCell::Text(b) => CellView::Text(b@),
            SqlCell::Blob => CellView::Blob,
        }
    }
}

/// The values of a row, in order.
pub open spec fn cells_view(cells: Seq<SqlCell>) -> Seq<CellView> {
    cells.map_values(|c: SqlCell| c@)
}

/// A row as it was stepped to: its values, or the error's text.
pub open spec fn row_view(r: Result<Vec<SqlCell>, String>) -> Result<Seq<CellView>, Seq<char>> {
    match r {
        Ok(cells) => Ok(cells_view(cells@)),
        Err(e) => Err(e@),
    }
}

/// The rows of a query, as they were stepped to, in order.
pub open spec fn rows_view(rows: Seq<Result<Vec<SqlCell>, String>>) -> Seq<Result<Seq<CellView>, Seq<char>>> {
    rows.map_values(|r: Result<Vec<SqlCell>, String>| row_view(r))
}

/// The answer of a query of rows: its rows, or the error that stopped it
/// before any row.
pub open spec fn answer_view(
    r: Result<Vec<Result<Vec<SqlCell>, String>>, String>,
) -> Result<Seq<Result<Seq<CellView>, Seq<char>>>, Seq<char>> {
    match r {
        Ok(rows) => Ok(rows_view(rows@)),
        Err(e) => Err(e@),
    }
}

/// What a query of one value found.
pub enum RawLookup {
    /// The first column of the first row.
    Found(SqlCell),
    /// The query returned no row; the error's text.
    NoRows(String),
    /// The query failed; the error's text.
    Failed(String),
}

/// The mathematical value of a [`RawLookup`].
pub enum LookupView {
    Found(CellView),
    NoRows(Seq<char>),
    Failed(Seq<char>),
}

impl View for RawLookup {
    type V = LookupView;

    open spec fn view(&self) -> LookupView {
        match self {
            RawLookup::Found(c) => LookupView::Found(c@),
            RawLookup::NoRows(e) => LookupView::NoRows(e@),
            RawLookup::Failed(e) => LookupView::Failed(e@),
        }
    }
}

/// The error of a result, as characters.
pub open spec fn error_of<T>(r: Result<T, String>) -> Option<Seq<char>> {
    match r {
        Ok(_) => None,
        Err(e) => Some(e@),
    }
}

/// One exchange with the database: what was handed to it and what came back.
pub enum DbOp {
    /// The database file at `path` was opened.
    Open { path: Seq<char> },
    /// A batch of statements; the error's text where it failed.
    Batch { sql: Seq<char>, error: Option<Seq<char>> },
    /// A statement with its parameters; the error's text where it failed.
    Execute { sql: Seq<char>, params: Seq<ParamView>, error: Option<Seq<char>> },
    /// The rowid of the last insert was read.
    LastInsertRowid { id: i64 },
    /// A query of one value, with its parameters, and what it found.
    QueryFirst { sql: Seq<char>, params: Seq<ParamView>, answer: LookupView },
    /// A query of rows, with its parameters, and its rows or its error's text.
    QueryAll {
        sql: Seq<char>,
        params: Seq<ParamView>,
        answer: Result<Seq<Result<Seq<CellView>, Seq<char>>>, Seq<char>>,
    },
}

/// Opens (or creates) the SQLite database file at `path`.
///
/// Trusted: calls `rusqlite::Connection::open` and hands back the error's
/// text; whether the open succeeds depends on the file system, so nothing
/// is claimed of the result.
#[verifier::external_body]
fn connect(path: &str) -> (r: Result<rusqlite::Connection, String>) {
    rusqlite::Connection::open(path).map_err(|e| e.to_string())
}

/// The `rusqlite` value of a parameter.
///
/// Trusted: converts variant for variant.
#[verifier::external_body]
fn param_value(p: &SqlParam) -> (r: Value) {
    match p {
        SqlParam::Null => Value::Null,
        SqlParam::Integer(i) => Value::Integer(*i),
        SqlParam::Text(s) => Value::Text(s.clone()),
    }
}

/// The `rusqlite` values of the parameters, in order.
fn bound_values(params: &Vec<SqlParam>) -> (r: Vec<Value>)
    ensures
        r.len() == params.len(),
{
    let mut values: Vec<Value> = Vec::new();
    for p in it: params.iter()
        invariant
            values.len() == it.index(),
    {
        values.push(param_value(p));
    }
    values
}

/// Column `i` of a result row, whatever its storage class.
///
/// Trusted: calls `Row::get_ref`, which reads a value of any type and fails
/// only for a column index out of range, and converts the value variant for
/// variant, copying the bytes of a text and dropping the payload of a
/// floating-point number or a blob.
#[verifier::external_body]
fn column_cell(row: &rusqlite::Row, i: usize) -> (r: Result<SqlCell, rusqlite::Error>) {
    match row.get_ref(i) {
        Ok(ValueRef::Null) => Ok(SqlCell::Null),
        Ok(ValueRef::Integer(n)) => Ok(SqlCell::Integer(n)),
        Ok(ValueRef::Real(_)) => Ok(SqlCell::Real),
        Ok(ValueRef::Text(t)) => Ok(SqlCell::Text(t.to_vec())),
        Ok(ValueRef::Blob(_)) => Ok(SqlCell::Blob),
        Err(e) => Err(e),
    }
}

/// The first column of a result row.
fn first_cell(row: &rusqlite::Row) -> (r: Result<SqlCell, rusqlite::Error>) {
    column_cell(row, 0)
}

/// The first `columns` columns of a result row, in order; the first column
/// that cannot be read makes it fail.
fn row_cells(row: &rusqlite::Row, columns: usize) -> (r: Result<Vec<SqlCell>, rusqlite::Error>)
    ensures
        r matches Ok(cells) ==> cells.len() == columns,
{
    let mut cells: Vec<SqlCell> = Vec::new();
    let mut i: usize = 0;
    while i < columns
        invariant
            i <= columns,
            cells.len() == i,
        decreases columns - i,
    {
        let c = column_cell(row, i)?;
        cells.push(c);
        i = i + 1;
    }
    Ok(cells)
}

/// A connection to an SQLite database and the record of every exchange
/// made through it, the opening first.
pub struct Sqlite {
    conn: rusqlite::Connection,
    log: Ghost<Seq<DbOp>>,
}

impl View for Sqlite {
    type V = Seq<DbOp>;

    closed spec fn view(&self) -> Seq<DbOp> {
        self.log@
    }
}

impl Sqlite {
    /// Opens (or creates) the database file at `path`; the record starts
    /// with the opening of that path.
    pub(crate) fn open(path: &str) -> (r: Result<Sqlite, String>)
        ensures
            r matches Ok(s) ==> s@ == seq![DbOp::Open { path: path@ }],
    {
        let conn = connect(path)?;
        let log: Ghost<Seq<DbOp>> = Ghost(Seq::empty().push(DbOp::Open { path: path@ }));
        Ok(Sqlite { conn, log })
    }

    /// Runs the statements of `sql` one after the other.
    ///
    /// Trusted: calls `rusqlite::Connection::execute_batch` and hands back
    /// the error's text; the record gains this exchange. The outcome depends
    /// on the database, so nothing more is claimed of it.
    #[verifier::external_body]
    pub(crate) fn batch(&mut self, sql: &str) -> (r: Result<(), String>)
        ensures
            final(self)@ == old(self)@.push(DbOp::Batch { sql: sql@, error: error_of(r) }),
    {
        self.conn.execute_batch(sql).map_err(|e| e.to_string())
    }

    /// Runs one statement with its parameters, bound in order.
    ///
    /// Trusted: calls `rusqlite::Connection::execute` and hands back the
    /// error's text; the record gains this exchange. The outcome depends on
    /// the database, so nothing more is claimed of it.
    #[verifier::external_body]
    pub(crate) fn execute(&mut self, sql: &str, params: &Vec<SqlParam>) -> (r: Result<(), String>)
        ensures
            final(self)@ == old(self)@.push(
                DbOp::Execute { sql: sql@, params: param_views(params@), error: error_of(r) },
            ),
    {
        let values = bound_values(params);
        match self.conn.execute(sql, rusqlite::params_from_iter(values)) {
            Ok(_) => Ok(()),
            Err(e) => Err(e.to_string()),
        }
    }

    /// The rowid of the last row inserted through this connection.
    ///
    /// Trusted: calls `rusqlite::Connection::last_insert_rowid`; the record
    /// gains this exchange. Nothing more is claimed of the id.
    #[verifier::external_body]
    pub(crate) fn last_insert_rowid(&mut self) -> (id: i64)
        ensures
            final(self)@ == old(self)@.push(DbOp::LastInsertRowid { id }),
    {
        self.conn.last_insert_rowid()
    }

    /// The first column of the first row of a query.
    ///
    /// Trusted: calls `rusqlite::Connection::query_row`, reading the column
    /// with [`first_cell`]; a query without a row gives `NoRows`, with the
    /// text "Query returned no rows", another error `Failed`, with the
    /// error's text. The record gains this exchange. What the row holds
    /// depends on the database, so nothing more is claimed of it.
    #[verifier::external_body]
    pub(crate) fn query_first(&mut self, sql: &str, params: &Vec<SqlParam>) -> (l: RawLookup)
        ensures
            final(self)@ == old(self)@.push(
                DbOp::QueryFirst { sql: sql@, params: param_views(params@), answer: l@ },
            ),
            l matches RawLookup::NoRows(m) ==> m@ == "Query returned no rows"@,
    {
        let values = bound_values(params);
        match self.conn.query_row(sql, rusqlite::params_from_iter(values), |row| first_cell(row)) {
            Ok(c) => RawLookup::Found(c),
            Err(e @ rusqlite::Error::QueryReturnedNoRows) => RawLookup::NoRows(e.to_string()),
            Err(e) => RawLookup::Failed(e.to_string()),
        }
    }

    /// The first `columns` columns of every row of a query, in the order in
    /// which the query steps to them.
    ///
    /// Trusted: calls `rusqlite::Connection::prepare` and
    /// `Statement::query_map`, reading each row with [`row_cells`], and
    /// collects every item that the rows hand out, an error's text among
    /// them; `rusqlite` ends the rows after a failed step. Where preparing
    /// or binding fails, the error's text. The record gains this exchange;
    /// which rows come back depends on the database.
    #[verifier::external_body]
    pub(crate) fn query_all(&mut self, sql: &str, params: &Vec<SqlParam>, columns: usize) -> (r: Result<Vec<Result<Vec<SqlCell>, String>>, String>)
        ensures
            final(self)@ == old(self)@.push(
                DbOp::QueryAll { sql: sql@, params: param_views(params@), answer: answer_view(r) },
            ),
            r matches Ok(rows) ==> forall|i: int|
                0 <= i < rows.len() ==> (#[trigger] rows@[i] matches Ok(cells) ==> cells.len() == columns),
    {
        let values = bound_values(params);
        let mut stmt = self.conn.prepare(sql).map_err(|e| e.to_string())?;
        let rows = stmt
            .query_map(rusqlite::params_from_iter(values), |row| row_cells(row, columns))
            .map_err(|e| e.to_string())?;
        Ok(rows.map(|row| row.map_err(|e| e.to_string())).collect())
    }
}

} // verus!
