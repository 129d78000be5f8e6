//! The in-memory relational store: schema creation and parameterized bulk
//! insertion for loaded files, and the query executor that turns one line
//! of query text into a rendered table or a single diagnostic, never an
//! uncaught error.
//!
//! The embedded engine itself is an external collaborator: each call into
//! it goes through a trusted wrapper whose contract states only what the
//! engine's own code shows.

use vstd::prelude::*;
use vstd::string::*;
use crate::normalize::normalize_spec;
use crate::normalize::normalize_col;
use crate::sqlgen::{create_table_sql, insert_sql, load_message, load_message_spec};

verus! {

// ---------------------------------------------------------------------------
// Trusted declarations for the embedded engine (sqlite3)
// ---------------------------------------------------------------------------

/// The engine's connection to one in-memory store.
#[verifier::external_type_specification]
#[verifier::external_body]
pub struct ExConnection(sqlite3::Connection);

/// A statement compiled by the engine, borrowing its connection.
#[verifier::external_type_specification]
#[verifier::external_body]
pub struct ExStatement<'l>(sqlite3::Statement<'l>);

/// Relies on `Connection::execute`: runs statement text that produces no
/// rows; on failure the engine's message.
#[verifier::external_body]
fn db_execute(conn: &sqlite3::Connection, sql: &str) -> (r: Result<(), String>) {
    match conn.execute(sql) {
        Ok(()) => Ok(()),
        Err(e) => Err(e.message.unwrap_or(String::new())),
    }
}

/// Relies on `Connection::prepare`: compiles query text into a statement;
/// on failure the engine's diagnostic message.
#[verifier::external_body]
fn db_prepare<'l>(conn: &'l sqlite3::Connection, sql: &str) -> (r: Result<
    sqlite3::Statement<'l>,
    String,
>) {
    match conn.prepare(sql) {
        Ok(s) => Ok(s),
        Err(e) => Err(e.message.unwrap_or(String::new())),
    }
}

/// Relies on `Statement::bind` for text: binds `value` to the placeholder
/// numbered `i` (the leftmost is 1), keeping the value out of the
/// statement text.  The binder asserts that the index is positive, so 0 is
/// excluded here.
#[verifier::external_body]
fn stmt_bind_text(stmt: &mut sqlite3::Statement<'_>, i: usize, value: &str) -> (r: Result<
    (),
    String,
>)
    requires
        1 <= i,
{
    match stmt.bind(i, value) {
        Ok(()) => Ok(()),
        Err(e) => Err(e.message.unwrap_or(String::new())),
    }
}

/// Relies on `Statement::next`: takes one evaluation step; `true` means a
/// row is available for reading, `false` that the statement is done.
#[verifier::external_body]
fn stmt_next(stmt: &mut sqlite3::Statement<'_>) -> (r: Result<bool, String>) {
    match stmt.next() {
        Ok(sqlite3::State::Row) => Ok(true),
        Ok(sqlite3::State::Done) => Ok(false),
        Err(e) => Err(e.message.unwrap_or(String::new())),
    }
}

/// Relies on `Statement::columns` (`sqlite3_column_count`): the number of
/// columns in the statement's result rows.
#[verifier::external_body]
fn stmt_columns(stmt: &sqlite3::Statement<'_>) -> (r: usize) {
    stmt.columns()
}

/// Relies on `Statement::kind` (`sqlite3_column_type`): whether column `i`
/// of the current row holds NULL.  Every caller keeps `i` below the
/// statement's column count, where the engine's five type codes are
/// exhaustive.
#[verifier::external_body]
fn stmt_is_null(stmt: &sqlite3::Statement<'_>, i: usize) -> (r: bool) {
    match stmt.kind(i) {
        sqlite3::Type::Null => true,
        _ => false,
    }
}

/// Relies on `Statement::read` for `String` (`sqlite3_column_text`): the
/// value in column `i` of the current row, rendered as text by the engine;
/// on failure the engine's message.
#[verifier::external_body]
fn stmt_read_text(stmt: &sqlite3::Statement<'_>, i: usize) -> (r: Result<String, String>) {
    match stmt.read::<String>(i) {
        Ok(s) => Ok(s),
        Err(e) => Err(e.message.unwrap_or(String::new())),
    }
}

// ---------------------------------------------------------------------------
// Trusted declaration for the table layout (prettytable)
// ---------------------------------------------------------------------------

/// The aligned text layout of the given display rows.
pub uninterp spec fn table_text_of(rows: Seq<Seq<Seq<char>>>) -> Seq<char>;

/// Relies on prettytable's `Table` (`add_row` and its `Display` layout,
/// with the title-separator format): lays the rows out as an aligned
/// table; the text depends on the rows alone.
#[verifier::external_body]
fn format_table(rows: &Vec<Vec<String>>) -> (r: String)
    ensures
        r@ == table_text_of(rows.deep_view()),
{
    let mut table = prettytable::Table::new();
    table.set_format(*prettytable::format::consts::FORMAT_NO_LINESEP_WITH_TITLE);
    for row in rows.iter() {
        let cells = row.iter().map(|c| prettytable::Cell::new(c)).collect();
        table.add_row(prettytable::Row::new(cells));
    }
    table.to_string()
}

// ---------------------------------------------------------------------------
// Schema loading
// ---------------------------------------------------------------------------

/// The result of loading one file into the store.
pub struct LoadReport {
    /// The normalized column names, in header order.
    pub columns: Vec<String>,
    /// How many data rows were inserted.
    pub rows_inserted: usize,
    /// The report line for the operator.
    pub message: String,
}

/// Normalizes every header field, preserving order.
pub fn normalize_header(header: &Vec<String>) -> (r: Vec<String>)
    ensures
        r.deep_view() == header.deep_view().map_values(|h: Seq<char>| normalize_spec(h)),
{
    let mut r: Vec<String> = Vec::new();
    let mut i: usize = 0;
    while i < header.len()
        invariant
            i <= header@.len(),
            r.deep_view().len() == i,
            forall|k: int|
                0 <= k < i ==> r.deep_view()[k] == normalize_spec(
                    #[trigger] header.deep_view()[k],
                ),
        decreases header@.len() - i,
    {
        proof {
            assert(header.deep_view()[i as int] == header@[i as int]@);
        }
        r.push(normalize_col(header[i].as_str()));
        i = i + 1;
    }
    proof {
        assert(r.deep_view() =~= header.deep_view().map_values(
            |h: Seq<char>| normalize_spec(h),
        ));
    }
    r
}

/// What one insert's single evaluation step means: a done step is success;
/// a result row — which an insert must never produce — becomes the
/// library's own error; an engine failure is propagated as it is.
pub fn insert_outcome(step: Result<bool, String>) -> (r: Result<(), String>)
    ensures
        step matches Ok(row) ==> if row {
            r matches Err(m) && m@ == "insert unexpectedly produced a row"@
        } else {
            r is Ok
        },
        step matches Err(e) ==> (r matches Err(m) && m == e),
{
    match step {
        Ok(false) => Ok(()),
        Ok(true) => Err(String::from_str("insert unexpectedly produced a row")),
        Err(e) => Err(e),
    }
}

/// Inserts one row, each field bound to its numbered placeholder.  The
/// statement text comes from [`insert_sql`], the single evaluation step is
/// judged by [`insert_outcome`], and the first engine failure — at
/// prepare, at a bind, or at the step — is returned, ending the load.
fn insert_row(conn: &sqlite3::Connection, table: &str, row: &Vec<String>) -> (r: Result<
    (),
    String,
>) {
    let sql = insert_sql(table, row.len());
    let mut stmt = match db_prepare(conn, sql.as_str()) {
        Ok(s) => s,
        Err(e) => return Err(e),
    };
    let mut i: usize = 0;
    while i < row.len()
        invariant
            i <= row@.len(),
        decreases row@.len() - i,
    {
        match stmt_bind_text(&mut stmt, i + 1, row[i].as_str()) {
            Ok(()) => {},
            Err(e) => return Err(e),
        }
        i = i + 1;
    }
    let step = stmt_next(&mut stmt);
    insert_outcome(step)
}

/// Loads one decoded file into `table`: the table is created with the
/// normalized header columns, each as a generic text column, and every
/// data row is inserted with parameter binding, in order.  Loading is
/// all-or-nothing: the first engine failure ends the load and is returned.
pub fn load_table(
    conn: &sqlite3::Connection,
    table: &str,
    header: &Vec<String>,
    rows: &Vec<Vec<String>>,
) -> (r: Result<LoadReport, String>)
    ensures
        r matches Ok(rep) ==> {
            &&& rep.columns.deep_view() == header.deep_view().map_values(
                (|h: Seq<char>| normalize_spec(h)),
            )
            &&& rep.rows_inserted == rows@.len()
            &&& rep.message@ == load_message_spec(
                rows@.len() as int,
                table@,
                rep.columns.deep_view(),
            )
        },
{
    let cols = normalize_header(header);
    let sql = create_table_sql(table, &cols);
    match db_execute(conn, sql.as_str()) {
        Ok(()) => {},
        Err(e) => return Err(e),
    }
    let mut count: usize = 0;
    let mut i: usize = 0;
    while i < rows.len()
        invariant
            i <= rows@.len(),
            count == i,
        decreases rows@.len() - i,
    {
        match insert_row(conn, table, &rows[i]) {
            Ok(()) => {},
            Err(e) => return Err(e),
        }
        count = count + 1;
        i = i + 1;
    }
    let message = load_message(count, table, &cols);
    Ok(LoadReport { columns: cols, rows_inserted: count, message })
}

// ---------------------------------------------------------------------------
// Query execution
// ---------------------------------------------------------------------------

/// What one submitted query produces: the result rows with their rendered
/// table layout, or one diagnostic line.  Nothing else ever comes back to
/// the loop.
pub enum QueryOutput {
    /// The result rows and the table text laid out from exactly them.
    Table(Vec<Vec<String>>, String),
    /// The engine's diagnostic message.
    Failure(String),
}

/// The display form of one raw column value.  `read` is `None` exactly
/// when the engine reported the value NULL, in which case nothing was read
/// and the value renders as the empty string — never an error; otherwise
/// `read` is what reading the value as text gave, and it passes through,
/// a read failure propagated as it is.
pub fn display_value(read: Option<Result<String, String>>) -> (r: Result<String, String>)
    ensures
        read is None ==> (r matches Ok(s) && s@ == Seq::<char>::empty()),
        read matches Some(t) ==> r == t,
{
    match read {
        None => Ok(String::new()),
        Some(t) => t,
    }
}

/// Reads column `i` of the current row and renders it: the engine is asked
/// whether the value is NULL, the text is read only when it is not, and
/// [`display_value`] fixes what each answer renders as.
fn read_value(stmt: &sqlite3::Statement<'_>, i: usize) -> (r: Result<String, String>) {
    let read: Option<Result<String, String>> = if stmt_is_null(stmt, i) {
        None
    } else {
        Some(stmt_read_text(stmt, i))
    };
    display_value(read)
}

/// Runs a compiled statement to completion, rendering every row's values
/// as text, NULL as the empty string.
fn collect_display_rows(stmt: &mut sqlite3::Statement<'_>) -> (r: Result<Vec<Vec<String>>, String>) {
    let mut rows: Vec<Vec<String>> = Vec::new();
    let mut steps: usize = 0;
    while steps < usize::MAX
        invariant
            true,
        decreases usize::MAX - steps,
    {
        match stmt_next(stmt) {
            Ok(true) => {},
            Ok(false) => return Ok(rows),
            Err(e) => return Err(e),
        }
        let n = stmt_columns(stmt);
        let mut row: Vec<String> = Vec::new();
        let mut i: usize = 0;
        while i < n
            invariant
                i <= n,
            decreases n - i,
        {
            match read_value(stmt, i) {
                Ok(text) => row.push(text),
                Err(e) => return Err(e),
            }
            i = i + 1;
        }
        rows.push(row);
        steps = steps + 1;
    }
    Err(String::from_str("result set too large"))
}

/// The result rows of one line of query text, each value rendered as text
/// with NULL as the empty string; or the engine's diagnostic.
pub fn query_rows(conn: &sqlite3::Connection, line: &str) -> (r: Result<Vec<Vec<String>>, String>) {
    let mut stmt = match db_prepare(conn, line) {
        Ok(s) => s,
        Err(e) => return Err(e),
    };
    collect_display_rows(&mut stmt)
}

/// Submits one line of query text verbatim and renders the outcome: the
/// full buffered result set together with the table text laid out from
/// exactly those rows, or a single diagnostic line.  Every failure is
/// contained here — nothing propagates to the loop.
pub fn run_query(conn: &sqlite3::Connection, line: &str) -> (out: QueryOutput)
    ensures
        out matches QueryOutput::Table(rows, text) ==> text@ == table_text_of(rows.deep_view()),
{
    match query_rows(conn, line) {
        Ok(rows) => {
            let text = format_table(&rows);
            QueryOutput::Table(rows, text)
        },
        Err(e) => QueryOutput::Failure(e),
    }
}

} // verus!
