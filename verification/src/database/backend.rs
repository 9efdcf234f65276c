//! The boundary to the SQLite driver. Every item here is believed, not
//! proved: what a call returns depends on the file behind the connection,
//! so the wrappers promise nothing of their results.

use vstd::prelude::*;
use crate::literal::is_real_literal;

verus! {

/// The driver's `rusqlite::Connection`, carried through as an opaque value.
#[verifier::external_type_specification]
#[verifier::external_body]
pub struct ExConnection(rusqlite::Connection);

/// The driver's `rusqlite::Error`, carried through as an opaque value.
#[verifier::external_type_specification]
#[verifier::external_body]
pub struct ExSqlError(rusqlite::Error);

/// The driver's `rusqlite::Transaction`, carried through as an opaque value.
#[verifier::external_type_specification]
#[verifier::external_body]
pub struct ExTransaction<'a>(rusqlite::Transaction<'a>);

/// The driver's `rusqlite::types::Value`, carried through as an opaque
/// value.
#[verifier::external_type_specification]
#[verifier::external_body]
pub struct ExSqlValue(rusqlite::types::Value);

/// What a stored cell holds, as the driver reports it. A real number comes
/// as its decimal text, a blob without its bytes.
#[derive(Debug)]
pub enum RawValue {
    Null,
    Integer(i64),
    Real(String),
    Text(String),
    Blob,
}

/// A stored cell as contracts see it.
#[verifier::ext_equal]
pub enum RawValueSpec {
    Null,
    Integer(int),
    Real(Seq<char>),
    Text(Seq<char>),
    Blob,
}

impl View for RawValue {
    type V = RawValueSpec;

    open spec fn view(&self) -> RawValueSpec {
        match self {
            RawValue::Null => RawValueSpec::Null,
            RawValue::Integer(i) => RawValueSpec::Integer(*i as int),
            RawValue::Real(t) => RawValueSpec::Real(t@),
            RawValue::Text(t) => RawValueSpec::Text(t@),
            RawValue::Blob => RawValueSpec::Blob,
        }
    }
}

/// A value bound to the placeholder of a statement. A real number is given
/// as its literal.
#[derive(Debug)]
pub enum SqlParam {
    Integer(i64),
    Real(String),
    Text(String),
}

/// A bound value as contracts see it.
#[verifier::ext_equal]
pub enum SqlParamSpec {
    Integer(int),
    Real(Seq<char>),
    Text(Seq<char>),
}

impl View for SqlParam {
    type V = SqlParamSpec;

    open spec fn view(&self) -> SqlParamSpec {
        match self {
            SqlParam::Integer(i) => SqlParamSpec::Integer(*i as int),
            SqlParam::Real(t) => SqlParamSpec::Real(t@),
            SqlParam::Text(t) => SqlParamSpec::Text(t@),
        }
    }
}

impl SqlParam {
    /// A real parameter holds a real-number literal.
    pub open spec fn well_formed(&self) -> bool {
        match self {
            SqlParam::Real(t) => is_real_literal(t@),
            _ => true,
        }
    }
}

/// `std::path::Path::exists` on `path`: whether something is at that path
/// now. Nothing is claimed of the answer.
#[verifier::external_body]
pub(crate) fn path_exists(path: &str) -> (r: bool) {
    std::path::Path::new(path).exists()
}

/// `rusqlite::Connection::open`: opens, and creates if need be, the
/// database file at `path`. Nothing is claimed of the outcome.
#[verifier::external_body]
pub(crate) fn open_database(path: &str) -> (r: Result<rusqlite::Connection, rusqlite::Error>) {
    rusqlite::Connection::open(path)
}

/// `rusqlite::Connection::transaction`: starts a unit of work that is
/// rolled back unless it is committed. Nothing is claimed of the outcome.
#[verifier::external_body]
pub(crate) fn begin<'a>(conn: &'a mut rusqlite::Connection) -> (r: Result<
    rusqlite::Transaction<'a>,
    rusqlite::Error,
>) {
    conn.transaction()
}

/// The `Deref` of `rusqlite::Transaction`: the connection that the unit of
/// work runs on.
#[verifier::external_body]
pub(crate) fn transaction_connection<'a, 'b>(tx: &'a rusqlite::Transaction<'b>) -> (r:
    &'a rusqlite::Connection) {
    tx
}

/// `rusqlite::Transaction::commit`: makes the unit of work permanent.
/// Nothing is claimed of the outcome.
#[verifier::external_body]
pub(crate) fn commit<'a>(tx: rusqlite::Transaction<'a>) -> (r: Result<(), rusqlite::Error>) {
    tx.commit()
}

/// `rusqlite::Connection::execute`: runs one statement with `params` bound
/// to its placeholders in order, and returns the number of rows changed.
/// Nothing is claimed of the outcome. A real parameter is read with std's
/// `str::parse`, which accepts every real-number literal; hence the demand.
#[verifier::external_body]
pub(crate) fn execute(conn: &rusqlite::Connection, sql: &str, params: &Vec<SqlParam>) -> (r: Result<
    usize,
    rusqlite::Error,
>)
    requires
        forall|i: int| 0 <= i < params@.len() ==> (#[trigger] params@[i]).well_formed(),
{
    conn.execute(sql, rusqlite::params_from_iter(params.iter().map(|p| match p {
        SqlParam::Integer(i) => rusqlite::types::Value::Integer(*i),
        SqlParam::Real(t) => rusqlite::types::Value::Real(t.parse().unwrap_or_default()),
        SqlParam::Text(t) => rusqlite::types::Value::Text(t.clone()),
    })))
}

/// Takes a cell over from the driver's `rusqlite::types::Value`, variant by
/// variant: a real number as the text that std shows it by, a blob without
/// its bytes. Nothing is claimed of the result.
#[verifier::external_body]
fn raw_of(value: rusqlite::types::Value) -> (r: RawValue) {
    match value {
        rusqlite::types::Value::Null => RawValue::Null,
        rusqlite::types::Value::Integer(i) => RawValue::Integer(i),
        rusqlite::types::Value::Real(x) => RawValue::Real(x.to_string()),
        rusqlite::types::Value::Text(t) => RawValue::Text(t),
        rusqlite::types::Value::Blob(_) => RawValue::Blob,
    }
}

/// `rusqlite::Connection::query_row` with `Row::get` on column 0: the first
/// cell of the first row that `sql` yields. Nothing is claimed of the
/// outcome.
#[verifier::external_body]
pub(crate) fn query_value(conn: &rusqlite::Connection, sql: &str) -> (r: Result<
    RawValue,
    rusqlite::Error,
>) {
    conn.query_row(sql, [], |row| row.get::<_, rusqlite::types::Value>(0)).map(raw_of)
}

/// `rusqlite::Connection::prepare` and `Statement::query_map` with
/// `Row::get` on the columns `first` and `second`: for each row that `sql`
/// yields, in order, the two cells, or `None` where the row could not be
/// read. The cells are read as values of any kind, which the driver does
/// without looking at the names of the columns. Nothing is claimed of the
/// outcome.
#[verifier::external_body]
pub(crate) fn query_pairs(
    conn: &rusqlite::Connection,
    sql: &str,
    first: usize,
    second: usize,
) -> (r: Result<Vec<Option<(RawValue, RawValue)>>, rusqlite::Error>) {
    let mut statement = conn.prepare(sql)?;
    let rows = statement.query_map([], |row| {
        Ok((row.get::<_, rusqlite::types::Value>(first)?, row.get::<_, rusqlite::types::Value>(second)?))
    })?;
    Ok(rows.map(|row| row.ok().map(|(a, b)| (raw_of(a), raw_of(b)))).collect())
}

} // verus!
