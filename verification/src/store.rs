//! Trusted boundary to the SQLite store.
//!
//! The library keeps its SQL text in verified code and crosses into rusqlite
//! only through the wrappers below.  What a query returns depends on the
//! database file, so the wrappers promise nothing about row contents: the
//! verified callers state what they do with whatever comes back.

use vstd::prelude::*;

verus! {

/// A plain value passed to or read from the database.
#[derive(Debug)]
pub enum DbValue {
    /// SQL NULL, and any value this library does not traffic in.
    Null,
    /// A signed integer.
    Int(i64),
    /// A text string.
    Text(String),
}

/// Mathematical model of a [`DbValue`].
#[verifier::ext_equal]
pub ghost enum DbValueV {
    Null,
    Int(int),
    Text(Seq<char>),
}

impl View for DbValue {
    type V = DbValueV;

    open spec fn view(&self) -> DbValueV {
        match self {
            DbValue::Null => DbValueV::Null,
            DbValue::Int(v) => DbValueV::Int(*v as int),
            DbValue::Text(s) => DbValueV::Text(s@),
        }
    }
}

impl DeepView for DbValue {
    type V = DbValueV;

    open spec fn deep_view(&self) -> DbValueV {
        self.view()
    }
}

#[verifier::external_type_specification]
#[verifier::external_body]
pub struct ExConnection(rusqlite::Connection);

#[verifier::external_type_specification]
#[verifier::external_body]
pub struct ExSqlValue(rusqlite::types::Value);

impl DbValue {
    /// Relies on `rusqlite::types::Value`: each variant maps to its
    /// counterpart, one arm per variant.
    #[verifier::external_body]
    fn to_sql(&self) -> rusqlite::types::Value {
        match self {
            DbValue::Null => rusqlite::types::Value::Null,
            DbValue::Int(v) => rusqlite::types::Value::Integer(*v),
            DbValue::Text(s) => rusqlite::types::Value::Text(s.clone()),
        }
    }

    /// Relies on `rusqlite::types::Value`: each variant this library
    /// traffics in maps to its counterpart; a real or blob value, which the
    /// schema never holds for the columns read here, maps to null.
    #[verifier::external_body]
    fn from_sql(v: rusqlite::types::Value) -> DbValue {
        match v {
            rusqlite::types::Value::Integer(i) => DbValue::Int(i),
            rusqlite::types::Value::Text(s) => DbValue::Text(s),
            _ => DbValue::Null,
        }
    }
}

/// Relies on `rusqlite::Connection::prepare` and `Statement::query_map`:
/// runs `sql` with `params` bound in order and hands back each resulting
/// row's column values.  What comes back depends on the database file, so
/// nothing is promised of it.
#[verifier::external_body]
pub fn query_rows(conn: &mut rusqlite::Connection, sql: &str, params: &Vec<DbValue>) -> (r: Result<
    Vec<Vec<DbValue>>,
    String,
>) {
    let mut stmt = conn.prepare(sql).map_err(|e| e.to_string())?;
    let n = stmt.column_count();
    let rows = stmt
        .query_map(
            rusqlite::params_from_iter(params.iter().map(DbValue::to_sql)),
            |row| (0..n).map(|i| row.get::<_, rusqlite::types::Value>(i).map(DbValue::from_sql)).collect(),
        )
        .map_err(|e| e.to_string())?;
    rows.collect::<Result<Vec<Vec<DbValue>>, _>>().map_err(|e| e.to_string())
}

/// Relies on `rusqlite::Connection::execute`: runs `sql` with `params`
/// bound in order and hands back how many rows it changed.
#[verifier::external_body]
pub fn execute_sql(conn: &mut rusqlite::Connection, sql: &str, params: &Vec<DbValue>) -> (r: Result<
    usize,
    String,
>) {
    conn.execute(sql, rusqlite::params_from_iter(params.iter().map(DbValue::to_sql)))
        .map_err(|e| e.to_string())
}

/// Relies on `rusqlite::Connection::execute_batch`: runs `sql` as is, with
/// no parameters; used for transaction control.
#[verifier::external_body]
pub fn execute_batch_sql(conn: &mut rusqlite::Connection, sql: &str) -> (r: Result<(), String>) {
    conn.execute_batch(sql).map_err(|e| e.to_string())
}

/// Relies on `uuid::Uuid::new_v4` and its `Display`: a random identifier in
/// the hyphenated form, which is 36 characters long.  The value itself is
/// random, so nothing more is promised of it.
#[verifier::external_body]
pub fn new_uuid() -> (r: String)
    ensures
        r@.len() == 36,
{
    uuid::Uuid::new_v4().to_string()
}

} // verus!
