//! The calls into rusqlite that the stores make. Each one is trusted: what a
//! statement does and what a query returns depend on the database, so
//! nothing is promised of them.
use vstd::prelude::*;

use rusqlite::types::Value;
use rusqlite::Connection;

use crate::reconcile::AccountRow;
use crate::statement::{SqlParam, SqlStatement};

verus! {

#[verifier::external_type_specification]
#[verifier::external_body]
pub struct ExConnection(rusqlite::Connection);

#[verifier::external_type_specification]
#[verifier::external_body]
pub struct ExSqlError(rusqlite::Error);

#[verifier::external_type_specification]
#[verifier::external_body]
pub struct ExSqlValue(rusqlite::types::Value);

/// Relies on rusqlite's `types::Value`: the SQLite value of a parameter, one
/// variant for each.
#[verifier::external_body]
fn sql_value(p: SqlParam) -> Value {
    match p {
        SqlParam::Int(i) => Value::Integer(i),
        SqlParam::Text(s) => Value::Text(s),
        SqlParam::Blob(b) => Value::Blob(b),
    }
}

/// Relies on rusqlite's `Connection::open_in_memory`: a new, empty database.
#[verifier::external_body]
pub(crate) fn open_in_memory() -> (r: Result<Connection, rusqlite::Error>) {
    Connection::open_in_memory()
}

/// Relies on rusqlite's `Connection::open`: the database in the file at
/// `path`, created if absent.
#[verifier::external_body]
pub(crate) fn open_path(path: &str) -> (r: Result<Connection, rusqlite::Error>) {
    Connection::open(path)
}

/// Relies on rusqlite's `Connection::execute`: runs one statement with its
/// positional parameters and returns the number of rows changed.
#[verifier::external_body]
pub(crate) fn execute(conn: &Connection, st: SqlStatement) -> (r: Result<usize, rusqlite::Error>) {
    conn.execute(st.sql.as_str(), rusqlite::params_from_iter(st.params.into_iter().map(sql_value)))
}

/// Relies on rusqlite's `Statement::query_map`: the first column of every row
/// that the query yields, read as an integer.
#[verifier::external_body]
pub(crate) fn query_ints(conn: &Connection, st: SqlStatement) -> (r: Result<
    Vec<i64>,
    rusqlite::Error,
>) {
    let mut stmt = conn.prepare(st.sql.as_str())?;
    let params = rusqlite::params_from_iter(st.params.into_iter().map(sql_value));
    let rows = stmt.query_map(params, |row| row.get(0))?;
    rows.collect()
}

/// Relies on rusqlite's `Statement::query_map`: the first column of every row
/// that the query yields, read as bytes.
#[verifier::external_body]
pub(crate) fn query_blobs(conn: &Connection, st: SqlStatement) -> (r: Result<
    Vec<Vec<u8>>,
    rusqlite::Error,
>) {
    let mut stmt = conn.prepare(st.sql.as_str())?;
    let params = rusqlite::params_from_iter(st.params.into_iter().map(sql_value));
    let rows = stmt.query_map(params, |row| row.get(0))?;
    rows.collect()
}

/// Relies on rusqlite's `Statement::query_map`: the first two columns of
/// every row that the query yields, read as an integer and a text.
#[verifier::external_body]
pub(crate) fn query_id_texts(conn: &Connection, st: SqlStatement) -> (r: Result<
    Vec<(i64, String)>,
    rusqlite::Error,
>) {
    let mut stmt = conn.prepare(st.sql.as_str())?;
    let params = rusqlite::params_from_iter(st.params.into_iter().map(sql_value));
    let rows = stmt.query_map(params, |row| Ok((row.get(0)?, row.get(1)?)))?;
    rows.collect()
}

/// Relies on rusqlite's `Statement::query_map`: the first four columns of
/// every row that the query yields, read as an account row.
#[verifier::external_body]
pub(crate) fn query_accounts(conn: &Connection, st: SqlStatement) -> (r: Result<
    Vec<AccountRow>,
    rusqlite::Error,
>) {
    let mut stmt = conn.prepare(st.sql.as_str())?;
    let params = rusqlite::params_from_iter(st.params.into_iter().map(sql_value));
    let rows = stmt.query_map(
        params,
        |row| Ok(AccountRow { id: row.get(0)?, name: row.get(1)?, password: row.get(2)?, last_login: row.get(3)? }),
    )?;
    rows.collect()
}

} // verus!
