//! Trusted boundary to the relational backing store.
//!
//! Every call into rusqlite goes through one of the wrappers below.  The
//! backing database lives on disk, so nothing useful can be promised about
//! what a call returns: the verified callers state what holds of whatever
//! came back.

use vstd::prelude::*;

verus! {

/// rusqlite's connection handle, opaque to the verifier.
#[verifier::external_type_specification]
#[verifier::external_body]
pub struct ExConnection(rusqlite::Connection);

/// rusqlite's error type, opaque to the verifier.
#[verifier::external_type_specification]
#[verifier::external_body]
pub struct ExSqlError(rusqlite::Error);

/// One row of the conversations relation, as plain values in column order.
pub struct ConversationRow {
    pub id: i64,
    pub timestamp: String,
    pub prompt: String,
    pub response: String,
    pub model_used: String,
    pub response_time_ms: i64,
    pub file_context: String,
}

/// Relies on rusqlite's `Connection::open`: opens the database file at
/// `path`, creating it when absent.
#[verifier::external_body]
pub(crate) fn open_connection(path: &str) -> Result<rusqlite::Connection, rusqlite::Error> {
    rusqlite::Connection::open(path)
}

/// Relies on rusqlite's `Connection::execute` with no parameters, as schema
/// statements use it.
#[verifier::external_body]
pub(crate) fn execute_sql(conn: &rusqlite::Connection, sql: &str) -> Result<
    usize,
    rusqlite::Error,
> {
    conn.execute(sql, ())
}

/// Relies on rusqlite's `Connection::execute`, binding the six column values
/// of one conversation record to the statement's placeholders in order.
#[verifier::external_body]
pub(crate) fn execute_insert(
    conn: &rusqlite::Connection,
    sql: &str,
    timestamp: &String,
    prompt: &String,
    response: &String,
    model_used: &String,
    response_time_ms: i64,
    file_context: &String,
) -> Result<usize, rusqlite::Error> {
    conn.execute(sql, (timestamp, prompt, response, model_used, response_time_ms, file_context))
}

/// Relies on rusqlite's `Connection::prepare` and `Statement::query_map`:
/// runs `sql` and hands each returned row's seven columns out as plain
/// values, in column order.
#[verifier::external_body]
pub(crate) fn fetch_rows(conn: &rusqlite::Connection, sql: &str) -> Result<
    Vec<ConversationRow>,
    rusqlite::Error,
> {
    let mut stmt = conn.prepare(sql)?;
    let rows = stmt.query_map((), |row| {
        Ok(ConversationRow {
            id: row.get(0)?,
            timestamp: row.get(1)?,
            prompt: row.get(2)?,
            response: row.get(3)?,
            model_used: row.get(4)?,
            response_time_ms: row.get(5)?,
            file_context: row.get(6)?,
        })
    })?;
    rows.collect()
}

/// Relies on rusqlite's `Connection::last_insert_rowid`: the rowid of the
/// most recent successful insert on this connection.
#[verifier::external_body]
pub(crate) fn last_insert_rowid(conn: &rusqlite::Connection) -> i64 {
    conn.last_insert_rowid()
}

/// Relies on the `Display` rendering of rusqlite's error type.
#[verifier::external_body]
pub(crate) fn sql_error_message(e: &rusqlite::Error) -> String {
    e.to_string()
}

} // verus!
