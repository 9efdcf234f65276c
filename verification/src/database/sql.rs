//! The settings store: one row per declared table in a SQLite file, the
//! version of the layout in a table of its own, and typed access to every
//! setting by its name.
//!
//! What the store does with a statement is its own affair. What this
//! module answers for is the exchange: every statement handed to the store
//! and every question asked of it is put on record together with the
//! store's answer, and the contracts say which exchanges take place, given
//! the answers, and what is made of each answer.

use vstd::prelude::*;
use vstd::string::*;
use crate::controller::ControllerSchema;
use crate::controller::pid::PidController;
use crate::controller::pmode::PModeController;
use crate::database::backend::{
    RawValue, RawValueSpec, SqlParam, SqlParamSpec, begin, commit, execute, open_database,
    path_exists, query_pairs, query_value, transaction_connection,
};
use crate::database::cleanup::{
    cleanup_statements, has_table, lemma_reopening_keeps_declared_tables, orphans, plan_cleanup,
};
use crate::database::composer::{
    compose, composed, knows, lemma_owner_unique, lemma_static_masks_fragments, locate,
    owning_column, owning_table,
};
use crate::database::migration::{
    ColumnAction, Startup, additions, check_columns, column_action, decide_startup, has_run,
    is_inspected, lemma_addition_within, lemma_repair_within, repair_needed,
    names_distinct, names_of, pairs_view, plan_additions, plan_rename, plan_repairs, readable,
    readable_rows, recorded_version, rename_statements, repairs, rows_view, startup, stored_text,
    stored_view, strings_view, text_of, value_fits, version_after, version_of,
};
use crate::database::sql_schema::{
    Column, ColumnType, Rename, RenameSpec, SCHEMA_VERSION, Table, TableSpec, columns_view,
    renames, renames_view, static_schema, static_tables, tables_view,
};
use crate::database::statements::{
    CREATE_META_SQL, INSERT_META_SQL, LIST_TABLES_SQL, SELECT_META_SQL, UPDATE_META_SQL,
    add_column_sql, creation_statements, drop_table_sql, plan_creation, reset_sql, select_sql,
    select_text, table_info_sql, table_info_text, update_sql, update_text,
};
use crate::text::str_eq;
use crate::literal::{
    bool_token, decimal_text, format_i64, i32_literal, is_real, is_real_literal, parse_bool,
    parse_i32,
};

verus! {

/// Why an operation on the store failed.
#[derive(Clone, Copy, Debug, PartialEq, Eq, Structural)]
pub enum StoreError {
    /// No table of the layout declares a setting of that name.
    NotFound,
    /// The value is not acceptable for the setting's declared type.
    InvalidValue,
    /// The store could not be opened, read or written.
    StoreIO,
    /// The store reports a state of its columns that cannot be.
    SchemaIntegrity,
}

impl StoreError {
    /// A short description for the user.
    pub open spec fn spec_message(&self) -> Seq<char> {
        match self {
            StoreError::NotFound => "no such setting"@,
            StoreError::InvalidValue => "the value does not fit the setting's type"@,
            StoreError::StoreIO => "the settings store could not be read or written"@,
            StoreError::SchemaIntegrity => "the settings store reports an inconsistent layout"@,
        }
    }

    /// A short description for the user.
    pub fn message(&self) -> (r: &'static str)
        ensures
            r@ == self.spec_message(),
    {
        match self {
            StoreError::NotFound => "no such setting",
            StoreError::InvalidValue => "the value does not fit the setting's type",
            StoreError::StoreIO => "the settings store could not be read or written",
            StoreError::SchemaIntegrity => "the settings store reports an inconsistent layout",
        }
    }
}

/// The value of a setting as it is handed to a caller. A real number comes
/// as its decimal text.
#[derive(Debug)]
pub enum SettingValue {
    Integer(i64),
    Text(String),
    Boolean(bool),
}

/// The value of a setting as contracts see it.
pub enum SettingValueSpec {
    Integer(int),
    Text(Seq<char>),
    Boolean(bool),
}

impl View for SettingValue {
    type V = SettingValueSpec;

    open spec fn view(&self) -> SettingValueSpec {
        match self {
            SettingValue::Integer(i) => SettingValueSpec::Integer(*i as int),
            SettingValue::Text(t) => SettingValueSpec::Text(t@),
            SettingValue::Boolean(b) => SettingValueSpec::Boolean(*b),
        }
    }
}

/// How a value is shown: an integer in decimal, text as it is, a boolean as
/// `true` or `false`.
pub open spec fn shown(v: SettingValueSpec) -> Seq<char> {
    match v {
        SettingValueSpec::Integer(i) => decimal_text(i),
        SettingValueSpec::Text(t) => t,
        SettingValueSpec::Boolean(b) => if b { "true"@ } else { "false"@ },
    }
}

/// What a stored cell stands for where the column's type asks for nothing
/// else: an integer is itself, a real number and text are text, a blob and
/// an empty cell are shown by a fixed word.
pub open spec fn plain_value(raw: RawValueSpec) -> SettingValueSpec {
    match raw {
        RawValueSpec::Integer(i) => SettingValueSpec::Integer(i),
        RawValueSpec::Real(t) => SettingValueSpec::Text(t),
        RawValueSpec::Text(t) => SettingValueSpec::Text(t),
        RawValueSpec::Blob => SettingValueSpec::Text("Binary Data"@),
        RawValueSpec::Null => SettingValueSpec::Text("NULL"@),
    }
}

/// What a stored cell stands for in a column of type `t`. In a boolean
/// column an integer other than 0 is true and everything else false.
pub open spec fn decoded(t: ColumnType, raw: RawValueSpec) -> SettingValueSpec {
    match t {
        ColumnType::Boolean => SettingValueSpec::Boolean(raw matches RawValueSpec::Integer(i) && i != 0),
        _ => plain_value(raw),
    }
}

impl SettingValue {
    /// Shows the value as text.
    pub fn to_string(&self) -> (r: String)
        ensures
            r@ == shown(self@),
    {
        match self {
            SettingValue::Integer(i) => format_i64(*i),
            SettingValue::Text(t) => t.clone(),
            SettingValue::Boolean(b) => if *b { "true".to_owned() } else { "false".to_owned() },
        }
    }

    /// A copy of the value.
    pub fn duplicate(&self) -> (r: SettingValue)
        ensures
            r@ == self@,
    {
        match self {
            SettingValue::Integer(i) => SettingValue::Integer(*i),
            SettingValue::Text(t) => SettingValue::Text(t.clone()),
            SettingValue::Boolean(b) => SettingValue::Boolean(*b),
        }
    }

    /// Reads a stored cell where the column's type asks for nothing else.
    pub fn from(value: RawValue) -> (r: SettingValue)
        ensures
            r@ == plain_value(value@),
    {
        match value {
            RawValue::Integer(i) => SettingValue::Integer(i),
            RawValue::Real(t) => SettingValue::Text(t),
            RawValue::Text(t) => SettingValue::Text(t),
            RawValue::Blob => SettingValue::Text("Binary Data".to_owned()),
            RawValue::Null => SettingValue::Text("NULL".to_owned()),
        }
    }

    /// Reads a stored cell by the type of its column.
    pub fn decode(t: ColumnType, raw: RawValue) -> (r: SettingValue)
        ensures
            r@ == decoded(t, raw@),
    {
        match t {
            ColumnType::Boolean => match raw {
                RawValue::Integer(i) => SettingValue::Boolean(i != 0),
                _ => SettingValue::Boolean(false),
            },
            _ => SettingValue::from(raw),
        }
    }
}

/// A value of the shape that a column of type `t` yields: a boolean
/// column yields a boolean, any other an integer or text.
pub open spec fn has_shape(t: ColumnType, v: SettingValueSpec) -> bool {
    (t == ColumnType::Boolean) == (v is Boolean)
}

/// What is bound to the placeholder when `value` is written to a column of
/// type `t`, if `value` is acceptable there: the integer that it spells,
/// the real literal, the text, or 1 and 0 for a boolean.
pub open spec fn bound_param(t: ColumnType, value: Seq<char>) -> Option<SqlParamSpec> {
    match t {
        ColumnType::Integer => match i32_literal(value) {
            Some(i) => Some(SqlParamSpec::Integer(i as int)),
            None => None,
        },
        ColumnType::Real => if is_real_literal(value) {
            Some(SqlParamSpec::Real(value))
        } else {
            None
        },
        ColumnType::Text => Some(SqlParamSpec::Text(value)),
        ColumnType::Boolean => match bool_token(value) {
            Some(b) => Some(SqlParamSpec::Integer(if b { 1 } else { 0 })),
            None => None,
        },
    }
}

/// Reads `value` by the type `t` of the column that it is written to.
pub fn bind_value(t: ColumnType, value: &str) -> (r: Option<SqlParam>)
    ensures
        match r {
            Some(p) => bound_param(t, value@) == Some(p@) && p.well_formed(),
            None => bound_param(t, value@) is None,
        },
        r is Some <==> value_fits(t, value@),
{
    match t {
        ColumnType::Integer => match parse_i32(value) {
            Some(i) => Some(SqlParam::Integer(i as i64)),
            None => None,
        },
        ColumnType::Real => if is_real(value) {
            Some(SqlParam::Real(value.to_owned()))
        } else {
            None
        },
        ColumnType::Text => Some(SqlParam::Text(value.to_owned())),
        ColumnType::Boolean => match parse_bool(value) {
            Some(b) => Some(SqlParam::Integer(if b { 1 } else { 0 })),
            None => None,
        },
    }
}

/// The table and the column in which `key` is kept.
pub fn resolve(schema: &Vec<Table>, key: &str) -> (r: Result<(&'static str, Column), StoreError>)
    ensures
        match r {
            Ok((table, column)) => {
                &&& knows(tables_view(schema@), key@)
                &&& table@ == owning_table(tables_view(schema@), key@).name
                &&& column@ == owning_column(tables_view(schema@), key@)
            },
            Err(e) => e == StoreError::NotFound && !knows(tables_view(schema@), key@),
        },
{
    match locate(schema, key) {
        Some((t, c)) => {
            proof {
                lemma_owner_unique(tables_view(schema@), key@, t as int, c as int);
            }
            Ok((schema[t].name, schema[t].columns[c]))
        },
        None => Err(StoreError::NotFound),
    }
}

/// The statement that reads `key`, and the type by which the answer is
/// read.
pub fn read_plan(schema: &Vec<Table>, key: &str) -> (r: Result<(String, ColumnType), StoreError>)
    ensures
        match r {
            Ok((sql, t)) => {
                &&& knows(tables_view(schema@), key@)
                &&& sql@ == select_sql(
                    owning_table(tables_view(schema@), key@).name,
                    key@,
                )
                &&& t == owning_column(tables_view(schema@), key@).data_type
            },
            Err(e) => e == StoreError::NotFound && !knows(tables_view(schema@), key@),
        },
{
    match resolve(schema, key) {
        Ok((table, column)) => Ok((select_text(table, key), column.data_type)),
        Err(e) => Err(e),
    }
}

/// The statement that writes `value` to `key`, and what is bound to its
/// placeholder.
pub fn write_plan(schema: &Vec<Table>, key: &str, value: &str) -> (r: Result<
    (String, SqlParam),
    StoreError,
>)
    ensures
        match r {
            Ok((sql, param)) => {
                &&& knows(tables_view(schema@), key@)
                &&& sql@ == update_sql(
                    owning_table(tables_view(schema@), key@).name,
                    key@,
                )
                &&& bound_param(owning_column(tables_view(schema@), key@).data_type, value@)
                    == Some(param@)
                &&& param.well_formed()
            },
            Err(e) => if knows(tables_view(schema@), key@) {
                &&& e == StoreError::InvalidValue
                &&& !value_fits(owning_column(tables_view(schema@), key@).data_type, value@)
            } else {
                e == StoreError::NotFound
            },
        },
{
    match resolve(schema, key) {
        Ok((table, column)) => match bind_value(column.data_type, value) {
            Some(param) => Ok((update_text(table, key), param)),
            None => Err(StoreError::InvalidValue),
        },
        Err(e) => Err(e),
    }
}

/// What a read yields, given the type of the setting and the store's
/// answer: the answer read by that type, and a failure of the store where
/// there is no answer.
pub fn read_outcome(t: ColumnType, answer: Option<RawValue>) -> (r: Result<
    SettingValue,
    StoreError,
>)
    ensures
        match answer {
            Some(raw) => r matches Ok(v) && v@ == decoded(t, raw@),
            None => r matches Err(e) && e == StoreError::StoreIO,
        },
{
    match answer {
        Some(raw) => Ok(SettingValue::decode(t, raw)),
        None => Err(StoreError::StoreIO),
    }
}

/// What a write yields, given the store's answer: done where the store
/// took the statement, whatever number of rows it changed, and a failure
/// of the store where it did not.
pub fn write_outcome(answer: Option<usize>) -> (r: Result<(), StoreError>)
    ensures
        match answer {
            Some(_) => r is Ok,
            None => r matches Err(e) && e == StoreError::StoreIO,
        },
{
    match answer {
        Some(_) => Ok(()),
        None => Err(StoreError::StoreIO),
    }
}

/// The layout that the application runs with: its own tables, then those of
/// the timed controller, then those of the PID controller.
pub open spec fn default_tables() -> Seq<TableSpec> {
    composed(
        static_tables(),
        seq![PModeController::declared_tables(), PidController::declared_tables()],
    )
}

/// The layout that the application runs with.
pub fn default_schema() -> (r: Vec<Table>)
    ensures
        tables_view(r@) == default_tables(),
{
    let base = static_schema();
    let mut fragments: Vec<Vec<Table>> = Vec::new();
    fragments.push(PModeController::controller_tables());
    fragments.push(PidController::controller_tables());
    let r = compose(&base, &fragments);
    assert(crate::database::composer::fragments_view(fragments@) =~= seq![
        PModeController::declared_tables(),
        PidController::declared_tables(),
    ]);
    r
}

/// The first components of `pairs`.
fn first_components(pairs: &Vec<(String, String)>) -> (r: Vec<String>)
    ensures
        strings_view(r@) == names_of(pairs_view(pairs@)),
{
    let mut out: Vec<String> = Vec::new();
    let mut i: usize = 0;
    while i < pairs.len()
        invariant
            i <= pairs.len(),
            strings_view(out@) == names_of(pairs_view(pairs@)).take(i as int),
        decreases pairs.len() - i,
    {
        let ghost before = out@;
        out.push(pairs[i].0.clone());
        assert(strings_view(out@) =~= strings_view(before).push(pairs@[i as int].0@));
        assert(strings_view(out@) =~= names_of(pairs_view(pairs@)).take(i + 1));
        i += 1;
    }
    assert(names_of(pairs_view(pairs@)).take(pairs.len() as int) =~= names_of(pairs_view(pairs@)));
    out
}

/// One statement handed to the store, with what was bound to its
/// placeholders.
#[verifier::ext_equal]
pub struct Command {
    pub sql: Seq<char>,
    pub params: Seq<SqlParamSpec>,
}

/// A list of bound values as contracts see it.
pub open spec fn params_view(params: Seq<SqlParam>) -> Seq<SqlParamSpec> {
    params.map_values(|p: SqlParam| p@)
}

/// A statement without placeholders.
pub open spec fn plain(sql: Seq<char>) -> Command {
    Command { sql, params: Seq::empty() }
}

/// Statements without placeholders, in their order.
pub open spec fn plain_all(statements: Seq<Seq<char>>) -> Seq<Command> {
    statements.map_values(|s: Seq<char>| plain(s))
}

/// A statement with one placeholder, to which the integer `v` is bound.
pub open spec fn with_integer(sql: Seq<char>, v: int) -> Command {
    Command { sql, params: seq![SqlParamSpec::Integer(v)] }
}

/// What is handed to the store to create it with the layout `schema` at
/// `version`: the statements that create and fill each table, then the
/// table of the version and its row.
pub open spec fn creation_commands(schema: Seq<TableSpec>, version: u32) -> Seq<Command> {
    plain_all(creation_statements(schema)).push(plain(CREATE_META_SQL@)).push(
        with_integer(INSERT_META_SQL@, version as int),
    )
}

/// What is handed to the store to put `version` on record: the table of
/// the version is created if need be and its row is written; where that
/// changed no row (`updated` is 0), the row is inserted.
pub open spec fn version_commands(version: u32, updated: int) -> Seq<Command> {
    let written = seq![plain(CREATE_META_SQL@), with_integer(UPDATE_META_SQL@, version as int)];
    if updated == 0 {
        written.push(with_integer(INSERT_META_SQL@, version as int))
    } else {
        written
    }
}

/// One exchange with the store: what it was handed or asked, and what it
/// answered.
#[verifier::ext_equal]
pub enum Exchange {
    /// A unit of work was begun; `ok` tells whether the store agreed.
    Began { ok: bool },
    /// The unit of work was committed; `ok` tells whether the store agreed.
    Committed { ok: bool },
    /// A statement was handed over. The store answered with the number of
    /// rows that it changed, or refused.
    Handed { command: Command, outcome: Option<int> },
    /// The store was asked for one cell. It answered with the cell, or gave
    /// no answer.
    Asked { sql: Seq<char>, answer: Option<RawValueSpec> },
    /// The store was asked for two cells of every row. It answered with the
    /// rows, each with its two cells where the row could be read, or gave
    /// no answer.
    Listed {
        sql: Seq<char>,
        first: int,
        second: int,
        rows: Option<Seq<Option<(RawValueSpec, RawValueSpec)>>>,
    },
}

/// The store said no: it refused a statement or a unit of work, or gave no
/// answer.
pub open spec fn is_refusal(e: Exchange) -> bool {
    match e {
        Exchange::Began { ok } => !ok,
        Exchange::Committed { ok } => !ok,
        Exchange::Handed { outcome, .. } => outcome is None,
        Exchange::Asked { answer, .. } => answer is None,
        Exchange::Listed { rows, .. } => rows is None,
    }
}

/// The number of rows changed as contracts see it.
pub open spec fn outcome_view(r: Option<usize>) -> Option<int> {
    match r {
        Some(n) => Some(n as int),
        None => None,
    }
}

/// A list of outcomes as contracts see it.
pub open spec fn outcomes_view(v: Seq<Option<usize>>) -> Seq<Option<int>> {
    v.map_values(|r: Option<usize>| outcome_view(r))
}

/// An answered cell as contracts see it.
pub open spec fn raw_view(r: Option<RawValue>) -> Option<RawValueSpec> {
    match r {
        Some(raw) => Some(raw@),
        None => None,
    }
}

/// Listed rows as contracts see them.
pub open spec fn listed_view(r: Option<Vec<Option<(RawValue, RawValue)>>>) -> Option<
    Seq<Option<(RawValueSpec, RawValueSpec)>>,
> {
    match r {
        Some(rows) => Some(rows_view(rows@)),
        None => None,
    }
}

/// The commands handed over one after the other, each with what the store
/// answered.
pub open spec fn handed(commands: Seq<Command>, outcomes: Seq<Option<int>>) -> Seq<Exchange> {
    Seq::new(
        commands.len(),
        |i: int| Exchange::Handed { command: commands[i], outcome: outcomes[i] },
    )
}

/// The store took every statement.
pub open spec fn all_taken(outcomes: Seq<Option<int>>) -> bool {
    forall|i: int| 0 <= i < outcomes.len() ==> (#[trigger] outcomes[i]) is Some
}

/// The exchanges stopped at the first thing that the store said no to:
/// `after` goes on from `before`, its last exchange is that refusal, and
/// between the two nothing was refused and nothing was committed.
pub open spec fn stopped_at_refusal(before: Seq<Exchange>, after: Seq<Exchange>) -> bool {
    &&& before.len() < after.len()
    &&& after.take(before.len() as int) == before
    &&& is_refusal(after.last())
    &&& forall|i: int|
        before.len() <= i < after.len() - 1 ==> !is_refusal(#[trigger] after[i]) && !(
        after[i] is Committed)
}

/// A listing that made a migration fail: the store gave no answer, which
/// is a failure of the store, or reported a name twice, which is a layout
/// that cannot be.
pub open spec fn listing_failed(x: Exchange, e: StoreError) -> bool {
    x matches Exchange::Listed { rows, .. } && match rows {
        None => e == StoreError::StoreIO,
        Some(reported) => e == StoreError::SchemaIntegrity && !names_distinct(readable(reported)),
    }
}

/// The exchanges ended on a listing that failed, and went on from `before`.
pub open spec fn ended_on_failed_listing(
    before: Seq<Exchange>,
    after: Seq<Exchange>,
    e: StoreError,
) -> bool {
    &&& before.len() < after.len()
    &&& after.take(before.len() as int) == before
    &&& listing_failed(after.last(), e)
}

/// An opening failed: the last exchange is the one in which the store said
/// no, which is a failure of the store, or the listing in which it reported
/// a name twice, which is a layout that cannot be.
pub open spec fn opening_failed(trace: Seq<Exchange>, e: StoreError) -> bool {
    &&& trace.len() > 0
    &&& match e {
        StoreError::StoreIO => is_refusal(trace.last()),
        StoreError::SchemaIntegrity => listing_failed(trace.last(), e),
        _ => false,
    }
}

/// The creation of a store went through: the store took every statement.
pub open spec fn creation_done(schema: Seq<TableSpec>, version: u32, outcomes: Seq<Option<int>>) -> bool {
    outcomes.len() == creation_commands(schema, version).len() && all_taken(outcomes)
}

/// The exchanges of a creation that went through: the unit of work is
/// begun, every statement is handed over, and the unit is committed.
pub open spec fn creation_exchanges(
    schema: Seq<TableSpec>,
    version: u32,
    outcomes: Seq<Option<int>>,
) -> Seq<Exchange> {
    seq![Exchange::Began { ok: true }] + handed(creation_commands(schema, version), outcomes)
        + seq![Exchange::Committed { ok: true }]
}

/// The number of rows that the write of the version changed.
pub open spec fn updated_rows(outcomes: Seq<Option<int>>) -> int {
    match outcomes[1] {
        Some(n) => n,
        None => 0,
    }
}

/// The version was put on record: the store took every statement, and the
/// row was inserted exactly where the write changed none.
pub open spec fn version_done(version: u32, outcomes: Seq<Option<int>>) -> bool {
    &&& outcomes.len() >= 2
    &&& all_taken(outcomes)
    &&& outcomes.len() == version_commands(version, updated_rows(outcomes)).len()
}

/// The exchanges that put `version` on record.
pub open spec fn version_exchanges(version: u32, outcomes: Seq<Option<int>>) -> Seq<Exchange> {
    handed(version_commands(version, updated_rows(outcomes)), outcomes)
}

/// What the store answered while one table was migrated.
#[verifier::ext_equal]
pub struct TableAnswers {
    /// The rows that the store listed for the table's columns.
    pub rows: Seq<Option<(RawValueSpec, RawValueSpec)>>,
    /// What the store answered to each addition.
    pub added: Seq<Option<int>>,
    /// For each declared column, the cell that the store answered with where
    /// the column was inspected; nothing where it gave no answer, and for a
    /// column that was not inspected.
    pub read: Seq<Option<RawValueSpec>>,
    /// What the store answered to each repair.
    pub repaired: Seq<Option<int>>,
}

/// The text of each cell that was read, as far as it has one.
pub open spec fn stored_of(read: Seq<Option<RawValueSpec>>) -> Seq<Option<Seq<char>>> {
    read.map_values(
        |r: Option<RawValueSpec>|
            match r {
                Some(raw) => stored_text(raw),
                None => None,
            },
    )
}

/// The questions for the first `n` declared columns of `table`, in their
/// order: each column that is inspected is asked for with the statement
/// that reads it, and `read` holds the answers.
pub open spec fn questions(
    table: TableSpec,
    live: Seq<(Seq<char>, Seq<char>)>,
    read: Seq<Option<RawValueSpec>>,
    n: int,
) -> Seq<Exchange>
    decreases n,
{
    if n <= 0 {
        Seq::empty()
    } else {
        questions(table, live, read, n - 1) + (if column_action(table.columns[n - 1], live)
            == ColumnAction::Inspect {
            seq![
                Exchange::Asked {
                    sql: select_sql(table.name, table.columns[n - 1].name),
                    answer: read[n - 1],
                },
            ]
        } else {
            Seq::empty()
        })
    }
}

/// The questions for the first `n` columns depend on the answers for those
/// columns only.
pub proof fn lemma_questions_prefix(
    table: TableSpec,
    live: Seq<(Seq<char>, Seq<char>)>,
    a: Seq<Option<RawValueSpec>>,
    b: Seq<Option<RawValueSpec>>,
    n: int,
)
    requires
        n <= a.len(),
        n <= b.len(),
        forall|k: int| 0 <= k < n ==> a[k] == b[k],
    ensures
        questions(table, live, a, n) == questions(table, live, b, n),
    decreases n,
{
    if n > 0 {
        lemma_questions_prefix(table, live, a, b, n - 1);
    }
}

/// The answers fit the table: no name was reported twice, every addition
/// and every repair has its answer, and a cell was read for inspected
/// columns only.
pub open spec fn table_fits(table: TableSpec, a: TableAnswers) -> bool {
    let live = readable(a.rows);
    let n = table.columns.len() as int;
    &&& names_distinct(live)
    &&& a.added.len() == additions(table, live, n).len()
    &&& a.read.len() == n
    &&& a.repaired.len() == repairs(table, live, stored_of(a.read), n).len()
    &&& forall|c: int|
        0 <= c < n && column_action(table.columns[c], live) != ColumnAction::Inspect ==> (
        #[trigger] a.read[c]) is None
}

/// The exchanges of the migration of one table: its columns are listed,
/// the additions are handed over, the inspected columns are read, and the
/// repairs are handed over.
pub open spec fn table_exchanges(table: TableSpec, a: TableAnswers) -> Seq<Exchange> {
    let live = readable(a.rows);
    let n = table.columns.len() as int;
    seq![
        Exchange::Listed { sql: table_info_sql(table.name), first: 1, second: 2, rows: Some(a.rows) },
    ] + handed(plain_all(additions(table, live, n)), a.added) + questions(table, live, a.read, n)
        + handed(plain_all(repairs(table, live, stored_of(a.read), n)), a.repaired)
}

/// What the store answered while one rename was seen to.
#[verifier::ext_equal]
pub struct ListAnswers {
    /// The rows that the store listed.
    pub rows: Seq<Option<(RawValueSpec, RawValueSpec)>>,
    /// What the store answered to each statement that followed.
    pub outcomes: Seq<Option<int>>,
}

/// The statements of one rename, given what the store listed.
pub open spec fn rename_plan(schema: Seq<TableSpec>, r: RenameSpec, a: ListAnswers) -> Seq<
    Seq<char>,
> {
    rename_statements(schema, r.table, r.old_column, r.new_column, names_of(readable(a.rows)))
}

/// The exchanges of one rename: the columns of its table are listed, and
/// its statements are handed over.
pub open spec fn rename_exchanges(schema: Seq<TableSpec>, r: RenameSpec, a: ListAnswers) -> Seq<
    Exchange,
> {
    seq![Exchange::Listed { sql: table_info_sql(r.table), first: 1, second: 1, rows: Some(a.rows) }]
        + handed(plain_all(rename_plan(schema, r, a)), a.outcomes)
}

/// The exchanges of the migration of the first `n` tables of `schema`.
pub open spec fn tables_exchanges(schema: Seq<TableSpec>, answers: Seq<TableAnswers>, n: int) -> Seq<
    Exchange,
>
    decreases n,
{
    if n <= 0 {
        Seq::empty()
    } else {
        tables_exchanges(schema, answers, n - 1) + table_exchanges(schema[n - 1], answers[n - 1])
    }
}

/// The exchanges of the first `n` renames.
pub open spec fn renames_exchanges(
    schema: Seq<TableSpec>,
    renames: Seq<RenameSpec>,
    answers: Seq<ListAnswers>,
    n: int,
) -> Seq<Exchange>
    decreases n,
{
    if n <= 0 {
        Seq::empty()
    } else {
        renames_exchanges(schema, renames, answers, n - 1) + rename_exchanges(
            schema,
            renames[n - 1],
            answers[n - 1],
        )
    }
}

/// The exchanges for the first `n` tables depend on the answers for those
/// tables only.
pub proof fn lemma_tables_exchanges_prefix(
    schema: Seq<TableSpec>,
    a: Seq<TableAnswers>,
    b: Seq<TableAnswers>,
    n: int,
)
    requires
        n <= a.len(),
        n <= b.len(),
        forall|k: int| 0 <= k < n ==> a[k] == b[k],
    ensures
        tables_exchanges(schema, a, n) == tables_exchanges(schema, b, n),
    decreases n,
{
    if n > 0 {
        lemma_tables_exchanges_prefix(schema, a, b, n - 1);
    }
}

/// The exchanges for the first `n` renames depend on the answers for those
/// renames only.
pub proof fn lemma_renames_exchanges_prefix(
    schema: Seq<TableSpec>,
    renames: Seq<RenameSpec>,
    a: Seq<ListAnswers>,
    b: Seq<ListAnswers>,
    n: int,
)
    requires
        n <= a.len(),
        n <= b.len(),
        forall|k: int| 0 <= k < n ==> a[k] == b[k],
    ensures
        renames_exchanges(schema, renames, a, n) == renames_exchanges(schema, renames, b, n),
    decreases n,
{
    if n > 0 {
        lemma_renames_exchanges_prefix(schema, renames, a, b, n - 1);
    }
}

/// The exchanges of a cleanup: the tables of the store are listed, and the
/// drops of the orphans are handed over.
pub open spec fn cleanup_exchanges(schema: Seq<TableSpec>, a: ListAnswers) -> Seq<Exchange> {
    seq![Exchange::Listed { sql: LIST_TABLES_SQL@, first: 0, second: 0, rows: Some(a.rows) }]
        + handed(
        plain_all(cleanup_statements(schema, names_of(readable(a.rows)))),
        a.outcomes,
    )
}

/// What the store answered while it was opened.
pub struct Opening {
    /// Whether there was a store before.
    pub existed: bool,
    /// What the store answered when it was asked for its version; nothing
    /// where it gave no answer, and where it was new and was not asked.
    pub version_read: Option<RawValueSpec>,
    /// The version found on record; 0 where there was none.
    pub persisted: u32,
    /// What the store answered to each statement of its creation.
    pub creation: Seq<Option<int>>,
    /// What the store answered while each table was migrated.
    pub tables: Seq<TableAnswers>,
    /// What the store answered while each rename was seen to.
    pub renames: Seq<ListAnswers>,
    /// What the store answered to each statement that put the version on
    /// record.
    pub version: Seq<Option<int>>,
    /// What the store answered to the cleanup.
    pub cleanup: ListAnswers,
}

/// The answers fit an opening that went through. The version found is the
/// one that the store answered with, or 0 for a new store. A new store
/// took every statement of its creation. A store that was behind reported
/// no name twice. Where the version was put on record, the store took
/// every statement of that. Every statement handed over has its answer.
pub open spec fn opening_fits(
    schema: Seq<TableSpec>,
    version: u32,
    renames: Seq<RenameSpec>,
    o: Opening,
) -> bool {
    &&& o.persisted == if o.existed {
        recorded_version(o.version_read)
    } else {
        0
    }
    &&& match startup(o.existed, o.persisted, version) {
        Startup::Initialize => creation_done(schema, version, o.creation) && version_done(
            version,
            o.version,
        ),
        Startup::Migrate => {
            &&& o.tables.len() == schema.len()
            &&& forall|t: int| 0 <= t < schema.len() ==> table_fits(schema[t], #[trigger] o.tables[t])
            &&& o.renames.len() == renames.len()
            &&& forall|k: int|
                0 <= k < renames.len() ==> (#[trigger] o.renames[k]).outcomes.len() == rename_plan(
                    schema,
                    renames[k],
                    o.renames[k],
                ).len()
            &&& version_done(version, o.version)
            &&& o.cleanup.outcomes.len() == cleanup_statements(
                schema,
                names_of(readable(o.cleanup.rows)),
            ).len()
        },
        Startup::UpToDate => o.cleanup.outcomes.len() == cleanup_statements(
            schema,
            names_of(readable(o.cleanup.rows)),
        ).len(),
    }
}

/// The exchanges of an opening that went through, given what the store
/// answered. An existing store is asked for its version first. A new store
/// is created in one unit of work and its version recorded. An older store
/// is migrated table by table, then rename by rename, its version is
/// recorded, and the orphans are dropped. A store that is up to date only
/// has its orphans dropped.
pub open spec fn opening_exchanges(
    schema: Seq<TableSpec>,
    version: u32,
    renames: Seq<RenameSpec>,
    o: Opening,
) -> Seq<Exchange> {
    (if o.existed {
        seq![Exchange::Asked { sql: SELECT_META_SQL@, answer: o.version_read }]
    } else {
        Seq::empty()
    }) + (match startup(o.existed, o.persisted, version) {
        Startup::Initialize => creation_exchanges(schema, version, o.creation) + version_exchanges(
            version,
            o.version,
        ),
        Startup::Migrate => tables_exchanges(schema, o.tables, schema.len() as int)
            + renames_exchanges(schema, renames, o.renames, renames.len() as int)
            + version_exchanges(version, o.version) + cleanup_exchanges(schema, o.cleanup),
        Startup::UpToDate => cleanup_exchanges(schema, o.cleanup),
    })
}

/// The exchange in which `command` was handed over and the store answered
/// with `outcome`.
pub open spec fn handing(command: Command, outcome: Option<int>) -> Exchange {
    Exchange::Handed { command, outcome }
}

/// The command was handed to the store in the course of `trace`.
pub open spec fn was_handed(trace: Seq<Exchange>, command: Command) -> bool {
    exists|outcome: Option<int>| trace.contains(#[trigger] handing(command, outcome))
}

/// What is part of a stretch of exchanges is part of the whole, whatever
/// stands before and after the stretch.
pub proof fn lemma_contains_within(
    before: Seq<Exchange>,
    middle: Seq<Exchange>,
    after: Seq<Exchange>,
    x: Exchange,
)
    requires
        middle.contains(x),
    ensures
        (before + middle + after).contains(x),
{
    let i = choose|i: int| 0 <= i < middle.len() && middle[i] == x;
    assert((before + middle + after)[before.len() + i] == x);
}

/// A statement of a list that was handed over was handed over.
pub proof fn lemma_handed_holds(statements: Seq<Seq<char>>, outcomes: Seq<Option<int>>, s: Seq<char>)
    requires
        statements.contains(s),
    ensures
        was_handed(handed(plain_all(statements), outcomes), plain(s)),
{
    let i = choose|i: int| 0 <= i < statements.len() && statements[i] == s;
    let x = handing(plain(s), outcomes[i]);
    assert(handed(plain_all(statements), outcomes)[i] == x);
    assert(handed(plain_all(statements), outcomes).contains(x));
}

/// What is part of the exchanges of one table is part of the exchanges of
/// the tables up to any later one.
pub proof fn lemma_table_within(
    schema: Seq<TableSpec>,
    answers: Seq<TableAnswers>,
    t: int,
    n: int,
    x: Exchange,
)
    requires
        0 <= t < n,
        table_exchanges(schema[t], answers[t]).contains(x),
    ensures
        tables_exchanges(schema, answers, n).contains(x),
    decreases n,
{
    let prefix = tables_exchanges(schema, answers, n - 1);
    let last = table_exchanges(schema[n - 1], answers[n - 1]);
    if t == n - 1 {
        lemma_contains_within(prefix, last, Seq::empty(), x);
        assert(prefix + last + Seq::<Exchange>::empty() =~= prefix + last);
    } else {
        lemma_table_within(schema, answers, t, n - 1, x);
        lemma_contains_within(Seq::empty(), prefix, last, x);
        assert(Seq::<Exchange>::empty() + prefix + last =~= prefix + last);
    }
}

/// The question for an inspected column is among the questions of its
/// table, with the answer that was read for it.
pub proof fn lemma_question_within(
    table: TableSpec,
    live: Seq<(Seq<char>, Seq<char>)>,
    read: Seq<Option<RawValueSpec>>,
    c: int,
    n: int,
)
    requires
        0 <= c < n,
        column_action(table.columns[c], live) == ColumnAction::Inspect,
    ensures
        questions(table, live, read, n).contains(
            Exchange::Asked { sql: select_sql(table.name, table.columns[c].name), answer: read[c] },
        ),
    decreases n,
{
    let x = Exchange::Asked { sql: select_sql(table.name, table.columns[c].name), answer: read[c] };
    let prefix = questions(table, live, read, n - 1);
    let whole = questions(table, live, read, n);
    if c == n - 1 {
        assert(whole[prefix.len() as int] == x);
    } else {
        lemma_question_within(table, live, read, c, n - 1);
        let i = choose|i: int| 0 <= i < prefix.len() && prefix[i] == x;
        assert(whole[i] == x);
    }
}

/// A run of one statement is a member.
pub proof fn lemma_run_of_one(whole: Seq<Seq<char>>, s: Seq<char>)
    requires
        has_run(whole, seq![s]),
    ensures
        whole.contains(s),
{
    let at = choose|at: int|
        0 <= at && at + seq![s].len() <= whole.len() && #[trigger] whole.subrange(
            at,
            at + seq![s].len(),
        ) == seq![s];
    assert(whole.subrange(at, at + seq![s].len())[0] == s);
    assert(whole[at] == s);
}

/// Opening a store again at the version it is at, or at an older one, asks
/// it for its version and for its tables and hands it nothing but the
/// drops of orphans, and no table of the layout is among them: the version
/// on record stays, and what the layout declares is read back as it was
/// left.
pub proof fn lemma_reopening_keeps_settings(
    schema: Seq<TableSpec>,
    version: u32,
    renames: Seq<RenameSpec>,
    o: Opening,
    i: int,
)
    requires
        o.existed,
        o.persisted >= version,
        0 <= i < opening_exchanges(schema, version, renames, o).len(),
        opening_exchanges(schema, version, renames, o)[i] is Handed,
    ensures
        opening_exchanges(schema, version, renames, o) == seq![
            Exchange::Asked { sql: SELECT_META_SQL@, answer: o.version_read },
        ] + cleanup_exchanges(schema, o.cleanup),
        i >= 2,
        opening_exchanges(schema, version, renames, o)[i]->command == plain(
            drop_table_sql(orphans(schema, names_of(readable(o.cleanup.rows)))[i - 2]),
        ),
        !has_table(schema, orphans(schema, names_of(readable(o.cleanup.rows)))[i - 2]),
        version_after(o.existed, o.persisted, version) == o.persisted,
{
    let tables = names_of(readable(o.cleanup.rows));
    let trace = opening_exchanges(schema, version, renames, o);
    assert(trace[0] is Asked);
    assert(trace[1] is Listed);
    assert(trace[i] == handed(plain_all(cleanup_statements(schema, tables)), o.cleanup.outcomes)[i
        - 2]);
    lemma_reopening_keeps_declared_tables(schema, tables, version, i - 2);
}

/// A store that is new or behind the declared version has the declared
/// version put on record: the write of that version was handed to the
/// store, and the store took it.
pub proof fn lemma_version_recorded_when_behind(
    schema: Seq<TableSpec>,
    version: u32,
    renames: Seq<RenameSpec>,
    o: Opening,
)
    requires
        opening_fits(schema, version, renames, o),
        !o.existed || o.persisted < version,
    ensures
        opening_exchanges(schema, version, renames, o).contains(
            Exchange::Handed {
                command: with_integer(UPDATE_META_SQL@, version as int),
                outcome: o.version[1],
            },
        ),
        o.version[1] is Some,
        version_after(o.existed, o.persisted, version) == version,
{
    let x = Exchange::Handed {
        command: with_integer(UPDATE_META_SQL@, version as int),
        outcome: o.version[1],
    };
    let part = version_exchanges(version, o.version);
    assert(part[1] == x);
    let asked = if o.existed {
        seq![Exchange::Asked { sql: SELECT_META_SQL@, answer: o.version_read }]
    } else {
        Seq::empty()
    };
    match startup(o.existed, o.persisted, version) {
        Startup::Initialize => {
            let before = asked + creation_exchanges(schema, version, o.creation);
            lemma_contains_within(before, part, Seq::empty(), x);
            assert(opening_exchanges(schema, version, renames, o) =~= before + part + Seq::<
                Exchange,
            >::empty());
        },
        Startup::Migrate => {
            let before = asked + tables_exchanges(schema, o.tables, schema.len() as int)
                + renames_exchanges(schema, renames, o.renames, renames.len() as int);
            let after = cleanup_exchanges(schema, o.cleanup);
            lemma_contains_within(before, part, after, x);
            assert(opening_exchanges(schema, version, renames, o) =~= before + part + after);
        },
        Startup::UpToDate => {},
    }
}

/// A migration sees to every declared column. When a store that is behind
/// is opened, a column that the store did not report is added, with its
/// own default. A column that it reported under another type is read with
/// the statement that reads it, and where the text of the answer does not
/// fit the declared type, the column is put back to its default.
pub proof fn lemma_migration_sees_to_every_column(
    schema: Seq<TableSpec>,
    version: u32,
    renames: Seq<RenameSpec>,
    o: Opening,
    t: int,
    c: int,
)
    requires
        o.existed,
        o.persisted < version,
        0 <= t < schema.len(),
        0 <= c < schema[t].columns.len(),
    ensures
        column_action(schema[t].columns[c], readable(o.tables[t].rows)) == ColumnAction::Add
            ==> was_handed(
            opening_exchanges(schema, version, renames, o),
            plain(add_column_sql(schema[t].name, schema[t].columns[c])),
        ),
        column_action(schema[t].columns[c], readable(o.tables[t].rows)) == ColumnAction::Inspect
            ==> opening_exchanges(schema, version, renames, o).contains(
            Exchange::Asked {
                sql: select_sql(schema[t].name, schema[t].columns[c].name),
                answer: o.tables[t].read[c],
            },
        ),
        column_action(schema[t].columns[c], readable(o.tables[t].rows)) == ColumnAction::Inspect
            && repair_needed(schema[t].columns[c].data_type, stored_of(o.tables[t].read)[c])
            ==> was_handed(
            opening_exchanges(schema, version, renames, o),
            plain(reset_sql(schema[t].name, schema[t].columns[c])),
        ),
{
    let table = schema[t];
    let a = o.tables[t];
    let live = readable(a.rows);
    let n = table.columns.len() as int;
    let column = table.columns[c];
    let trace = opening_exchanges(schema, version, renames, o);
    let asked = seq![Exchange::Asked { sql: SELECT_META_SQL@, answer: o.version_read }];
    let tables = tables_exchanges(schema, o.tables, schema.len() as int);
    let rest = renames_exchanges(schema, renames, o.renames, renames.len() as int)
        + version_exchanges(version, o.version) + cleanup_exchanges(schema, o.cleanup);
    assert(trace =~= asked + tables + rest);
    let listing = seq![
        Exchange::Listed { sql: table_info_sql(table.name), first: 1, second: 2, rows: Some(a.rows) },
    ];
    let added = handed(plain_all(additions(table, live, n)), a.added);
    let asking = questions(table, live, a.read, n);
    let repaired = handed(plain_all(repairs(table, live, stored_of(a.read), n)), a.repaired);
    assert(table_exchanges(table, a) =~= listing + added + (asking + repaired));
    assert(table_exchanges(table, a) =~= (listing + added) + asking + repaired);
    assert(table_exchanges(table, a) =~= (listing + added + asking) + repaired + Seq::<
        Exchange,
    >::empty());
    if column_action(column, live) == ColumnAction::Add {
        let s = add_column_sql(table.name, column);
        lemma_addition_within(table, live, c, n);
        lemma_run_of_one(additions(table, live, n), s);
        lemma_handed_holds(additions(table, live, n), a.added, s);
        let outcome = choose|outcome: Option<int>|
            added.contains(#[trigger] handing(plain(s), outcome));
        let x = handing(plain(s), outcome);
        lemma_contains_within(listing, added, asking + repaired, x);
        lemma_table_within(schema, o.tables, t, schema.len() as int, x);
        lemma_contains_within(asked, tables, rest, x);
    }
    if column_action(column, live) == ColumnAction::Inspect {
        let x = Exchange::Asked {
            sql: select_sql(table.name, column.name),
            answer: a.read[c],
        };
        lemma_question_within(table, live, a.read, c, n);
        lemma_contains_within(listing + added, asking, repaired, x);
        lemma_table_within(schema, o.tables, t, schema.len() as int, x);
        lemma_contains_within(asked, tables, rest, x);
        if repair_needed(column.data_type, stored_of(a.read)[c]) {
            let s = reset_sql(table.name, column);
            lemma_repair_within(table, live, stored_of(a.read), c, n);
            lemma_run_of_one(repairs(table, live, stored_of(a.read), n), s);
            lemma_handed_holds(repairs(table, live, stored_of(a.read), n), a.repaired, s);
            let outcome = choose|outcome: Option<int>|
                repaired.contains(#[trigger] handing(plain(s), outcome));
            let y = handing(plain(s), outcome);
            lemma_contains_within(listing + added + asking, repaired, Seq::empty(), y);
            lemma_table_within(schema, o.tables, t, schema.len() as int, y);
            lemma_contains_within(asked, tables, rest, y);
        }
    }
}

/// Masking, as the store sees it: a setting that the application's own
/// tables declare is read and written in the application's table,
/// whatever the controllers contribute under the same name.
pub proof fn lemma_masked_setting_statements(
    base: Seq<TableSpec>,
    fragments: Seq<Seq<TableSpec>>,
    key: Seq<char>,
)
    requires
        knows(base, key),
    ensures
        knows(composed(base, fragments), key),
        select_sql(owning_table(composed(base, fragments), key).name, key) == select_sql(
            owning_table(base, key).name,
            key,
        ),
        update_sql(owning_table(composed(base, fragments), key).name, key) == update_sql(
            owning_table(base, key).name,
            key,
        ),
        owning_column(composed(base, fragments), key) == owning_column(base, key),
{
    lemma_static_masks_fragments(base, fragments, key);
}

/// A note of a migration: a statement that was handed to the store, and
/// whether the store took it.
#[derive(Debug)]
pub struct MigrationNote {
    pub statement: String,
    pub taken: bool,
}

/// A note as contracts see it.
#[verifier::ext_equal]
pub struct NoteSpec {
    pub statement: Seq<char>,
    pub taken: bool,
}

impl View for MigrationNote {
    type V = NoteSpec;

    open spec fn view(&self) -> NoteSpec {
        NoteSpec { statement: self.statement@, taken: self.taken }
    }
}

/// A list of notes as contracts see it.
pub open spec fn notes_view(notes: Seq<MigrationNote>) -> Seq<NoteSpec> {
    notes.map_values(|n: MigrationNote| n@)
}

/// The notes of statements handed over one after the other: each with
/// whether the store took it.
pub open spec fn noted(statements: Seq<Seq<char>>, outcomes: Seq<Option<int>>) -> Seq<NoteSpec> {
    Seq::new(
        statements.len(),
        |i: int| NoteSpec { statement: statements[i], taken: outcomes[i] is Some },
    )
}

/// The notes of the migration of one table: its additions, then its
/// repairs.
pub open spec fn table_notes(table: TableSpec, a: TableAnswers) -> Seq<NoteSpec> {
    let live = readable(a.rows);
    let n = table.columns.len() as int;
    noted(additions(table, live, n), a.added) + noted(
        repairs(table, live, stored_of(a.read), n),
        a.repaired,
    )
}

/// The notes of the migration of the first `n` tables of `schema`.
pub open spec fn tables_notes(schema: Seq<TableSpec>, answers: Seq<TableAnswers>, n: int) -> Seq<
    NoteSpec,
>
    decreases n,
{
    if n <= 0 {
        Seq::empty()
    } else {
        tables_notes(schema, answers, n - 1) + table_notes(schema[n - 1], answers[n - 1])
    }
}

/// The notes of the first `n` renames.
pub open spec fn renames_notes(
    schema: Seq<TableSpec>,
    renames: Seq<RenameSpec>,
    answers: Seq<ListAnswers>,
    n: int,
) -> Seq<NoteSpec>
    decreases n,
{
    if n <= 0 {
        Seq::empty()
    } else {
        renames_notes(schema, renames, answers, n - 1) + noted(
            rename_plan(schema, renames[n - 1], answers[n - 1]),
            answers[n - 1].outcomes,
        )
    }
}

/// The notes for the first `n` tables depend on the answers for those
/// tables only.
pub proof fn lemma_tables_notes_prefix(
    schema: Seq<TableSpec>,
    a: Seq<TableAnswers>,
    b: Seq<TableAnswers>,
    n: int,
)
    requires
        n <= a.len(),
        n <= b.len(),
        forall|k: int| 0 <= k < n ==> a[k] == b[k],
    ensures
        tables_notes(schema, a, n) == tables_notes(schema, b, n),
    decreases n,
{
    if n > 0 {
        lemma_tables_notes_prefix(schema, a, b, n - 1);
    }
}

/// The notes for the first `n` renames depend on the answers for those
/// renames only.
pub proof fn lemma_renames_notes_prefix(
    schema: Seq<TableSpec>,
    renames: Seq<RenameSpec>,
    a: Seq<ListAnswers>,
    b: Seq<ListAnswers>,
    n: int,
)
    requires
        n <= a.len(),
        n <= b.len(),
        forall|k: int| 0 <= k < n ==> a[k] == b[k],
    ensures
        renames_notes(schema, renames, a, n) == renames_notes(schema, renames, b, n),
    decreases n,
{
    if n > 0 {
        lemma_renames_notes_prefix(schema, renames, a, b, n - 1);
    }
}

/// The notes of an opening: those of the migration where the store was
/// behind, every statement of every table in order, then those of the
/// renames; none otherwise.
pub open spec fn opening_notes(
    schema: Seq<TableSpec>,
    version: u32,
    renames: Seq<RenameSpec>,
    o: Opening,
) -> Seq<NoteSpec> {
    match startup(o.existed, o.persisted, version) {
        Startup::Migrate => tables_notes(schema, o.tables, schema.len() as int) + renames_notes(
            schema,
            renames,
            o.renames,
            renames.len() as int,
        ),
        _ => Seq::empty(),
    }
}

/// Notes every statement with what the store answered to it.
fn note_all(
    notes: &mut Vec<MigrationNote>,
    statements: &Vec<String>,
    outcomes: &Vec<Option<usize>>,
)
    requires
        outcomes@.len() == statements@.len(),
    ensures
        notes_view(final(notes)@) == notes_view(old(notes)@) + noted(
            strings_view(statements@),
            outcomes_view(outcomes@),
        ),
{
    let ghost all = noted(strings_view(statements@), outcomes_view(outcomes@));
    let mut i: usize = 0;
    assert(notes_view(notes@) =~= notes_view(old(notes)@) + all.take(0));
    while i < statements.len()
        invariant
            i <= statements.len(),
            outcomes@.len() == statements@.len(),
            all == noted(strings_view(statements@), outcomes_view(outcomes@)),
            notes_view(notes@) == notes_view(old(notes)@) + all.take(i as int),
        decreases statements.len() - i,
    {
        let ghost before = notes@;
        let taken = outcomes[i].is_some();
        notes.push(MigrationNote { statement: statements[i].clone(), taken });
        assert(notes_view(notes@) =~= notes_view(before).push(all[i as int]));
        assert(notes_view(notes@) =~= notes_view(old(notes)@) + all.take(i + 1));
        i += 1;
    }
    assert(all.take(statements.len() as int) =~= all);
}

/// A statement without placeholders binds nothing.
fn no_params() -> (r: Vec<SqlParam>)
    ensures
        r@.len() == 0,
{
    Vec::new()
}

/// One bound value.
fn one_param(p: SqlParam) -> (r: Vec<SqlParam>)
    requires
        p.well_formed(),
    ensures
        r@.len() == 1,
        r@[0] == p,
{
    let mut r: Vec<SqlParam> = Vec::new();
    r.push(p);
    r
}

/// Hands one statement to the store and puts the exchange on record.
/// Returns the number of rows changed, or `None` where the store refused.
fn issue(
    conn: &rusqlite::Connection,
    log: &mut Ghost<Seq<Exchange>>,
    sql: &str,
    params: &Vec<SqlParam>,
) -> (r: Option<usize>)
    requires
        forall|i: int| 0 <= i < params@.len() ==> (#[trigger] params@[i]).well_formed(),
    ensures
        final(log)@ == old(log)@.push(
            Exchange::Handed {
                command: Command { sql: sql@, params: params_view(params@) },
                outcome: outcome_view(r),
            },
        ),
{
    let r = match execute(conn, sql, params) {
        Ok(n) => Some(n),
        Err(_) => None,
    };
    *log = Ghost(
        log@.push(
            Exchange::Handed {
                command: Command { sql: sql@, params: params_view(params@) },
                outcome: outcome_view(r),
            },
        ),
    );
    r
}

/// Hands one statement without placeholders to the store.
fn run(conn: &rusqlite::Connection, log: &mut Ghost<Seq<Exchange>>, sql: &str) -> (r: Option<
    usize,
>)
    ensures
        final(log)@ == old(log)@.push(
            Exchange::Handed { command: plain(sql@), outcome: outcome_view(r) },
        ),
{
    let params = no_params();
    assert(params_view(params@) =~= Seq::<SqlParamSpec>::empty());
    issue(conn, log, sql, &params)
}

/// Hands one statement with one placeholder to the store, with the integer
/// `v` bound to it.
fn run_with_integer(
    conn: &rusqlite::Connection,
    log: &mut Ghost<Seq<Exchange>>,
    sql: &str,
    v: u32,
) -> (r: Option<usize>)
    ensures
        final(log)@ == old(log)@.push(
            Exchange::Handed { command: with_integer(sql@, v as int), outcome: outcome_view(r) },
        ),
{
    let params = one_param(SqlParam::Integer(v as i64));
    assert(params_view(params@) =~= seq![SqlParamSpec::Integer(v as int)]);
    issue(conn, log, sql, &params)
}

/// Asks the store for one cell and puts the exchange on record.
fn ask(conn: &rusqlite::Connection, log: &mut Ghost<Seq<Exchange>>, sql: &str) -> (r: Option<
    RawValue,
>)
    ensures
        final(log)@ == old(log)@.push(Exchange::Asked { sql: sql@, answer: raw_view(r) }),
{
    let r = match query_value(conn, sql) {
        Ok(raw) => Some(raw),
        Err(_) => None,
    };
    *log = Ghost(log@.push(Exchange::Asked { sql: sql@, answer: raw_view(r) }));
    r
}

/// Asks the store for two cells of every row and puts the exchange on
/// record.
fn list_rows(
    conn: &rusqlite::Connection,
    log: &mut Ghost<Seq<Exchange>>,
    sql: &str,
    first: usize,
    second: usize,
) -> (r: Option<Vec<Option<(RawValue, RawValue)>>>)
    ensures
        final(log)@ == old(log)@.push(
            Exchange::Listed {
                sql: sql@,
                first: first as int,
                second: second as int,
                rows: listed_view(r),
            },
        ),
{
    let r = match query_pairs(conn, sql, first, second) {
        Ok(rows) => Some(rows),
        Err(_) => None,
    };
    *log = Ghost(
        log@.push(
            Exchange::Listed {
                sql: sql@,
                first: first as int,
                second: second as int,
                rows: listed_view(r),
            },
        ),
    );
    r
}

/// Begins a unit of work and puts the exchange on record.
fn begin_work<'a>(conn: &'a mut rusqlite::Connection, log: &mut Ghost<Seq<Exchange>>) -> (r:
    Option<rusqlite::Transaction<'a>>)
    ensures
        final(log)@ == old(log)@.push(Exchange::Began { ok: r is Some }),
{
    let r = match begin(conn) {
        Ok(t) => Some(t),
        Err(_) => None,
    };
    *log = Ghost(log@.push(Exchange::Began { ok: r is Some }));
    r
}

/// Commits a unit of work and puts the exchange on record.
fn commit_work<'a>(transaction: rusqlite::Transaction<'a>, log: &mut Ghost<Seq<Exchange>>) -> (ok:
    bool)
    ensures
        final(log)@ == old(log)@.push(Exchange::Committed { ok }),
{
    let ok = commit(transaction).is_ok();
    *log = Ghost(log@.push(Exchange::Committed { ok }));
    ok
}

/// Hands every statement to the store in order, passing over those that
/// the store refuses. Returns what the store answered to each.
fn run_all(conn: &rusqlite::Connection, log: &mut Ghost<Seq<Exchange>>, statements: &Vec<String>) -> (r:
    Vec<Option<usize>>)
    ensures
        r@.len() == statements@.len(),
        final(log)@ == old(log)@ + handed(
            plain_all(strings_view(statements@)),
            outcomes_view(r@),
        ),
{
    let ghost all = plain_all(strings_view(statements@));
    let mut out: Vec<Option<usize>> = Vec::new();
    let mut i: usize = 0;
    assert(log@ =~= old(log)@ + handed(all.take(0), outcomes_view(out@)));
    while i < statements.len()
        invariant
            i <= statements.len(),
            out@.len() == i,
            all == plain_all(strings_view(statements@)),
            log@ == old(log)@ + handed(all.take(i as int), outcomes_view(out@)),
        decreases statements.len() - i,
    {
        let ghost before = out@;
        let outcome = run(conn, log, statements[i].as_str());
        out.push(outcome);
        assert(all[i as int] == plain(statements@[i as int]@));
        assert(handed(all.take(i + 1), outcomes_view(out@)) =~= handed(
            all.take(i as int),
            outcomes_view(before),
        ).push(Exchange::Handed { command: all[i as int], outcome: outcome_view(outcome) }));
        assert(log@ =~= old(log)@ + handed(all.take(i + 1), outcomes_view(out@)));
        i += 1;
    }
    assert(all.take(statements.len() as int) =~= all);
    out
}

/// Hands the statements to the store in order until the store refuses one.
/// Tells whether the store took them all, with what it answered to each
/// statement handed over. Where it refused one, the statements up to and
/// with that one have been handed over, and none after it.
fn run_until_refused(
    conn: &rusqlite::Connection,
    log: &mut Ghost<Seq<Exchange>>,
    statements: &Vec<String>,
) -> (r: (bool, Ghost<Seq<Option<int>>>))
    ensures
        r.0 ==> r.1@.len() == statements@.len() && all_taken(r.1@) && final(log)@ == old(log)@
            + handed(plain_all(strings_view(statements@)), r.1@),
        !r.0 ==> 1 <= r.1@.len() <= statements@.len() && all_taken(r.1@.drop_last())
            && r.1@.last() is None && final(log)@ == old(log)@ + handed(
            plain_all(strings_view(statements@)).take(r.1@.len() as int),
            r.1@,
        ),
{
    let ghost all = plain_all(strings_view(statements@));
    let ghost mut outcomes: Seq<Option<int>> = Seq::empty();
    let mut i: usize = 0;
    assert(log@ =~= old(log)@ + handed(all.take(0), outcomes));
    while i < statements.len()
        invariant
            i <= statements.len(),
            outcomes.len() == i,
            all_taken(outcomes),
            all == plain_all(strings_view(statements@)),
            log@ == old(log)@ + handed(all.take(i as int), outcomes),
        decreases statements.len() - i,
    {
        let outcome = run(conn, log, statements[i].as_str());
        proof {
            let next = outcomes.push(outcome_view(outcome));
            assert(all[i as int] == plain(statements@[i as int]@));
            assert(handed(all.take(i + 1), next) =~= handed(all.take(i as int), outcomes).push(
                Exchange::Handed { command: all[i as int], outcome: outcome_view(outcome) },
            ));
            assert(log@ =~= old(log)@ + handed(all.take(i + 1), next));
            assert(next.drop_last() =~= outcomes);
            outcomes = next;
        }
        if outcome.is_none() {
            return (false, Ghost(outcomes));
        }
        i += 1;
    }
    assert(all.take(statements.len() as int) =~= all);
    (true, Ghost(outcomes))
}

/// Handing commands over until the store refuses one stops at that
/// refusal, whatever harmless exchanges led up to it.
proof fn lemma_stopped_in_handing(
    before: Seq<Exchange>,
    lead: Seq<Exchange>,
    commands: Seq<Command>,
    outcomes: Seq<Option<int>>,
)
    requires
        forall|i: int|
            0 <= i < lead.len() ==> !is_refusal(#[trigger] lead[i]) && !(lead[i] is Committed),
        outcomes.len() == commands.len(),
        commands.len() >= 1,
        all_taken(outcomes.drop_last()),
        outcomes.last() is None,
    ensures
        stopped_at_refusal(before, before + lead + handed(commands, outcomes)),
{
    let after = before + lead + handed(commands, outcomes);
    assert(after.take(before.len() as int) =~= before);
    assert forall|i: int| before.len() <= i < after.len() - 1 implies !is_refusal(
        #[trigger] after[i],
    ) && !(after[i] is Committed) by {
        if i < before.len() + lead.len() {
            assert(after[i] == lead[i - before.len()]);
        } else {
            let k = i - before.len() - lead.len();
            assert(after[i] == handed(commands, outcomes)[k]);
            assert(outcomes.drop_last()[k] == outcomes[k]);
        }
    }
}

/// The version on record in the store, with what the store answered when
/// it was asked for it: the version is the integer that the store
/// answered, and 0 where it gave no answer or none that is a version.
fn get_schema_version(conn: &rusqlite::Connection, log: &mut Ghost<Seq<Exchange>>) -> (r: (
    u32,
    Ghost<Option<RawValueSpec>>,
))
    ensures
        r.0 == recorded_version(r.1@),
        final(log)@ == old(log)@.push(Exchange::Asked { sql: SELECT_META_SQL@, answer: r.1@ }),
{
    let read = ask(conn, log, SELECT_META_SQL);
    let version = version_of(&read);
    (version, Ghost(raw_view(read)))
}

/// Puts `version` on record in the store. Returns what the store answered
/// to each statement. Where the store refuses a statement, nothing more is
/// handed over.
fn set_schema_version(
    conn: &rusqlite::Connection,
    log: &mut Ghost<Seq<Exchange>>,
    version: u32,
) -> (r: Result<Ghost<Seq<Option<int>>>, StoreError>)
    ensures
        match r {
            Ok(outcomes) => version_done(version, outcomes@) && final(log)@ == old(log)@
                + version_exchanges(version, outcomes@),
            Err(e) => e == StoreError::StoreIO && stopped_at_refusal(old(log)@, final(log)@),
        },
{
    let ghost before = log@;
    let ghost nothing = Seq::<Exchange>::empty();
    let created = run(conn, log, CREATE_META_SQL);
    if created.is_none() {
        proof {
            let outcomes = seq![outcome_view(created)];
            let commands = seq![plain(CREATE_META_SQL@)];
            assert(outcomes.drop_last() =~= Seq::<Option<int>>::empty());
            lemma_stopped_in_handing(before, nothing, commands, outcomes);
            assert(log@ =~= before + nothing + handed(commands, outcomes));
        }
        return Err(StoreError::StoreIO);
    }
    let written = run_with_integer(conn, log, UPDATE_META_SQL, version);
    let updated = match written {
        Some(n) => n,
        None => {
            proof {
                let outcomes = seq![outcome_view(created), outcome_view(written)];
                let commands = seq![
                    plain(CREATE_META_SQL@),
                    with_integer(UPDATE_META_SQL@, version as int),
                ];
                assert(outcomes.drop_last() =~= seq![outcome_view(created)]);
                lemma_stopped_in_handing(before, nothing, commands, outcomes);
                assert(log@ =~= before + nothing + handed(commands, outcomes));
            }
            return Err(StoreError::StoreIO);
        },
    };
    if updated == 0 {
        let inserted = run_with_integer(conn, log, INSERT_META_SQL, version);
        let ghost outcomes = seq![
            outcome_view(created),
            outcome_view(written),
            outcome_view(inserted),
        ];
        let ghost commands = version_commands(version, 0);
        assert(log@ =~= before + nothing + handed(commands, outcomes));
        if inserted.is_none() {
            proof {
                assert(outcomes.drop_last() =~= seq![outcome_view(created), outcome_view(written)]);
                lemma_stopped_in_handing(before, nothing, commands, outcomes);
            }
            return Err(StoreError::StoreIO);
        }
        assert(log@ =~= before + version_exchanges(version, outcomes));
        Ok(Ghost(outcomes))
    } else {
        let ghost outcomes = seq![outcome_view(created), outcome_view(written)];
        assert(log@ =~= before + version_exchanges(version, outcomes));
        Ok(Ghost(outcomes))
    }
}

/// Creates every table of `schema` with its single row of defaults, and
/// puts `version` on record, all in one unit of work: where the store
/// refuses a statement, nothing more is handed over and nothing is
/// committed, so that nothing of it stays. Returns what the store answered
/// to each statement.
fn initialize_database_with_schema(
    conn: &mut rusqlite::Connection,
    log: &mut Ghost<Seq<Exchange>>,
    schema: &Vec<Table>,
    version: u32,
) -> (r: Result<Ghost<Seq<Option<int>>>, StoreError>)
    ensures
        match r {
            Ok(outcomes) => creation_done(tables_view(schema@), version, outcomes@) && final(log)@
                == old(log)@ + creation_exchanges(tables_view(schema@), version, outcomes@),
            Err(e) => e == StoreError::StoreIO && stopped_at_refusal(old(log)@, final(log)@),
        },
{
    let ghost before = log@;
    let ghost commands = creation_commands(tables_view(schema@), version);
    let ghost lead = seq![Exchange::Began { ok: true }];
    let transaction = match begin_work(conn, log) {
        Some(t) => t,
        None => {
            assert(log@.take(before.len() as int) =~= before);
            return Err(StoreError::StoreIO);
        },
    };
    let statements = plan_creation(schema);
    assert(strings_view(statements@) =~= creation_statements(tables_view(schema@)));
    let ghost plains = plain_all(strings_view(statements@));
    assert(commands.take(plains.len() as int) =~= plains);
    let (taken, first) = run_until_refused(transaction_connection(&transaction), log, &statements);
    if !taken {
        proof {
            let n = first@.len() as int;
            assert(commands.take(n) =~= plains.take(n));
            lemma_stopped_in_handing(before, lead, commands.take(n), first@);
            assert(log@ =~= before + lead + handed(commands.take(n), first@));
        }
        return Err(StoreError::StoreIO);
    }
    let created = run(transaction_connection(&transaction), log, CREATE_META_SQL);
    let ghost second = first@.push(outcome_view(created));
    let ghost upto: int = plains.len() as int + 1;
    proof {
        let n = upto;
        assert(commands.take(n) =~= plains.push(plain(CREATE_META_SQL@)));
        assert(handed(commands.take(n), second) =~= handed(plains, first@).push(
            Exchange::Handed { command: plain(CREATE_META_SQL@), outcome: outcome_view(created) },
        ));
        assert(log@ =~= before + lead + handed(commands.take(n), second));
        assert(second.drop_last() =~= first@);
    }
    if created.is_none() {
        proof {
            lemma_stopped_in_handing(before, lead, commands.take(upto), second);
        }
        return Err(StoreError::StoreIO);
    }
    let inserted = run_with_integer(
        transaction_connection(&transaction),
        log,
        INSERT_META_SQL,
        version,
    );
    let ghost outcomes = second.push(outcome_view(inserted));
    proof {
        assert(handed(commands, outcomes) =~= handed(commands.take(upto), second).push(
            Exchange::Handed {
                command: with_integer(INSERT_META_SQL@, version as int),
                outcome: outcome_view(inserted),
            },
        ));
        assert(log@ =~= before + lead + handed(commands, outcomes));
        assert(outcomes.drop_last() =~= second);
    }
    if inserted.is_none() {
        proof {
            lemma_stopped_in_handing(before, lead, commands, outcomes);
        }
        return Err(StoreError::StoreIO);
    }
    let ghost handed_over = log@;
    if !commit_work(transaction, log) {
        proof {
            assert(log@.take(before.len() as int) =~= before);
            assert forall|i: int| before.len() <= i < log@.len() - 1 implies !is_refusal(
                #[trigger] log@[i],
            ) && !(log@[i] is Committed) by {
                if i > before.len() {
                    let k = i - before.len() - 1;
                    assert(log@[i] == handed(commands, outcomes)[k]);
                } else {
                    assert(log@[i] == lead[0]);
                }
            }
        }
        return Err(StoreError::StoreIO);
    }
    assert(log@ =~= before + creation_exchanges(tables_view(schema@), version, outcomes));
    Ok(Ghost(outcomes))
}

/// Brings one live table up to its declaration: lists its columns, adds
/// the columns that it lacks, reads the cell of every column whose type has
/// changed, and puts back to its default every value that no longer fits.
/// A statement that the store refuses is passed over, and so is a cell that
/// it does not answer with. The migration of the table fails only where
/// the store does not list the columns, or lists a name twice; nothing is
/// handed over then. Returns what the store answered.
fn migrate_table(
    conn: &rusqlite::Connection,
    log: &mut Ghost<Seq<Exchange>>,
    notes: &mut Vec<MigrationNote>,
    table: &Table,
) -> (r: Result<Ghost<TableAnswers>, StoreError>)
    ensures
        match r {
            Ok(answers) => {
                &&& table_fits(table@, answers@)
                &&& final(log)@ == old(log)@ + table_exchanges(table@, answers@)
                &&& notes_view(final(notes)@) == notes_view(old(notes)@) + table_notes(
                    table@,
                    answers@,
                )
            },
            Err(e) => {
                &&& final(notes)@ == old(notes)@
                &&& final(log)@.len() == old(log)@.len() + 1
                &&& final(log)@.drop_last() == old(log)@
                &&& listing_failed(final(log)@.last(), e)
            },
        },
{
    let ghost before = log@;
    let ghost shape = table@;
    let info = table_info_text(table.name);
    let rows = match list_rows(conn, log, info.as_str(), 1, 2) {
        Some(rows) => rows,
        None => {
            assert(log@.drop_last() =~= before);
            return Err(StoreError::StoreIO);
        },
    };
    let ghost listed = log@;
    assert(listed.drop_last() =~= before);
    let live = readable_rows(&rows);
    let ghost reported = pairs_view(live@);
    match check_columns(&live) {
        Ok(_) => {},
        Err(e) => {
            return Err(e);
        },
    }
    let additions_planned = plan_additions(table, &live);
    let added = run_all(conn, log, &additions_planned);
    note_all(notes, &additions_planned, &added);
    let ghost mid = log@;
    let mut stored: Vec<Option<String>> = Vec::new();
    let ghost mut read: Seq<Option<RawValueSpec>> = Seq::empty();
    let mut j: usize = 0;
    assert(stored_view(stored@) =~= stored_of(read));
    assert(log@ =~= mid + questions(shape, reported, read, 0));
    while j < table.columns.len()
        invariant
            j <= table.columns.len(),
            shape == table@,
            reported == pairs_view(live@),
            stored@.len() == j,
            read.len() == j,
            stored_view(stored@) == stored_of(read),
            forall|c: int|
                0 <= c < j && column_action(shape.columns[c], reported) != ColumnAction::Inspect
                    ==> (#[trigger] read[c]) is None,
            log@ == mid + questions(shape, reported, read, j as int),
        decreases table.columns.len() - j,
    {
        let column = &table.columns[j];
        assert(shape.columns[j as int] == column@);
        let ghost stored_before = stored@;
        let ghost asked_before = log@;
        let ghost answer: Option<RawValueSpec>;
        if is_inspected(column, &live) {
            let select = select_text(table.name, column.name);
            let cell = ask(conn, log, select.as_str());
            proof {
                answer = raw_view(cell);
            }
            let text = match cell {
                Some(raw) => text_of(raw),
                None => None,
            };
            stored.push(text);
        } else {
            proof {
                answer = None;
            }
            stored.push(None);
        }
        proof {
            let next = read.push(answer);
            lemma_questions_prefix(shape, reported, read, next, j as int);
            assert(stored_view(stored@) =~= stored_view(stored_before).push(
                match answer {
                    Some(raw) => stored_text(raw),
                    None => None,
                },
            ));
            assert(stored_of(next) =~= stored_of(read).push(
                match answer {
                    Some(raw) => stored_text(raw),
                    None => None,
                },
            ));
            assert(log@ =~= mid + questions(shape, reported, next, j + 1));
            read = next;
        }
        j += 1;
    }
    let repairs_planned = plan_repairs(table, &live, &stored);
    let repaired = run_all(conn, log, &repairs_planned);
    note_all(notes, &repairs_planned, &repaired);
    let ghost answers = TableAnswers {
        rows: rows_view(rows@),
        added: outcomes_view(added@),
        read,
        repaired: outcomes_view(repaired@),
    };
    assert(log@ =~= before + table_exchanges(shape, answers));
    assert(notes_view(notes@) =~= notes_view(old(notes)@) + table_notes(shape, answers));
    Ok(Ghost(answers))
}

/// Sees to one rename: lists the columns of its table and, where the
/// rename is due, adds the new column as it is declared and copies the old
/// column's value into it. The old column stays, for the store cannot drop
/// a column. It fails only where the store does not list the columns.
/// Returns what the store answered.
fn apply_rename(
    conn: &rusqlite::Connection,
    log: &mut Ghost<Seq<Exchange>>,
    notes: &mut Vec<MigrationNote>,
    schema: &Vec<Table>,
    rename: &Rename,
) -> (r: Result<Ghost<ListAnswers>, StoreError>)
    ensures
        r is Err ==> final(notes)@ == old(notes)@,
        match r {
            Ok(answers) => {
                &&& notes_view(final(notes)@) == notes_view(old(notes)@) + noted(
                    rename_plan(tables_view(schema@), rename@, answers@),
                    answers@.outcomes,
                )
                &&& answers@.outcomes.len() == rename_plan(
                    tables_view(schema@),
                    rename@,
                    answers@,
                ).len()
                &&& final(log)@ == old(log)@ + rename_exchanges(
                    tables_view(schema@),
                    rename@,
                    answers@,
                )
            },
            Err(e) => {
                &&& final(log)@.len() == old(log)@.len() + 1
                &&& final(log)@.drop_last() == old(log)@
                &&& listing_failed(final(log)@.last(), e)
            },
        },
{
    let ghost before = log@;
    let info = table_info_text(rename.table);
    let rows = match list_rows(conn, log, info.as_str(), 1, 1) {
        Some(rows) => rows,
        None => {
            assert(log@.drop_last() =~= before);
            return Err(StoreError::StoreIO);
        },
    };
    let live = readable_rows(&rows);
    let statements = plan_rename(schema, rename, &live);
    let outcomes = run_all(conn, log, &statements);
    note_all(notes, &statements, &outcomes);
    let ghost answers = ListAnswers { rows: rows_view(rows@), outcomes: outcomes_view(outcomes@) };
    assert(log@ =~= before + rename_exchanges(tables_view(schema@), rename@, answers));
    Ok(Ghost(answers))
}

/// What a migration was told by the store.
pub struct MigrationAnswers {
    pub tables: Seq<TableAnswers>,
    pub renames: Seq<ListAnswers>,
}

/// The answers fit a migration that went through.
pub open spec fn migration_fits(
    schema: Seq<TableSpec>,
    renames: Seq<RenameSpec>,
    a: MigrationAnswers,
) -> bool {
    &&& a.tables.len() == schema.len()
    &&& forall|t: int| 0 <= t < schema.len() ==> table_fits(schema[t], #[trigger] a.tables[t])
    &&& a.renames.len() == renames.len()
    &&& forall|k: int|
        0 <= k < renames.len() ==> (#[trigger] a.renames[k]).outcomes.len() == rename_plan(
            schema,
            renames[k],
            a.renames[k],
        ).len()
}

/// Brings a live store up to `schema`: every table in the order of the
/// layout, then the renames. It fails only where the store does not list
/// the columns of a table, or lists a name twice, and it stops there.
fn migrate_schema_with_schema(
    conn: &rusqlite::Connection,
    log: &mut Ghost<Seq<Exchange>>,
    notes: &mut Vec<MigrationNote>,
    schema: &Vec<Table>,
    renames: &Vec<Rename>,
) -> (r: Result<Ghost<MigrationAnswers>, StoreError>)
    ensures
        match r {
            Ok(answers) => {
                &&& notes_view(final(notes)@) == notes_view(old(notes)@) + tables_notes(
                    tables_view(schema@),
                    answers@.tables,
                    schema@.len() as int,
                ) + renames_notes(
                    tables_view(schema@),
                    renames_view(renames@),
                    answers@.renames,
                    renames@.len() as int,
                )
                &&& migration_fits(tables_view(schema@), renames_view(renames@), answers@)
                &&& final(log)@ == old(log)@ + tables_exchanges(
                    tables_view(schema@),
                    answers@.tables,
                    schema@.len() as int,
                ) + renames_exchanges(
                    tables_view(schema@),
                    renames_view(renames@),
                    answers@.renames,
                    renames@.len() as int,
                )
            },
            Err(e) => ended_on_failed_listing(old(log)@, final(log)@, e),
        },
{
    let ghost before = log@;
    let ghost layout = tables_view(schema@);
    let ghost mut tables: Seq<TableAnswers> = Seq::empty();
    let ghost noted_before = notes_view(notes@);
    let mut i: usize = 0;
    assert(log@ =~= before + tables_exchanges(layout, tables, 0));
    assert(notes_view(notes@) =~= noted_before + tables_notes(layout, tables, 0));
    while i < schema.len()
        invariant
            i <= schema.len(),
            noted_before == notes_view(old(notes)@),
            notes_view(notes@) == noted_before + tables_notes(layout, tables, i as int),
            layout == tables_view(schema@),
            before == old(log)@,
            tables.len() == i,
            forall|t: int| 0 <= t < i ==> table_fits(layout[t], #[trigger] tables[t]),
            log@ == before + tables_exchanges(layout, tables, i as int),
        decreases schema.len() - i,
    {
        let ghost at_table = log@;
        assert(layout[i as int] == schema@[i as int]@);
        let answers = match migrate_table(conn, log, notes, &schema[i]) {
            Ok(answers) => answers,
            Err(e) => {
                proof {
                    assert(log@.drop_last() == at_table);
                    assert(at_table.take(before.len() as int) =~= before);
                    assert(log@.take(before.len() as int) =~= log@.drop_last().take(
                        before.len() as int,
                    ));
                }
                return Err(e);
            },
        };
        proof {
            let next = tables.push(answers@);
            lemma_tables_exchanges_prefix(layout, tables, next, i as int);
            lemma_tables_notes_prefix(layout, tables, next, i as int);
            assert(log@ =~= before + tables_exchanges(layout, next, i + 1));
            assert(notes_view(notes@) =~= noted_before + tables_notes(layout, next, i + 1));
            tables = next;
        }
        i += 1;
    }
    let ghost middle = log@;
    let ghost changes = renames_view(renames@);
    let ghost mut renamed: Seq<ListAnswers> = Seq::empty();
    let ghost noted_middle = notes_view(notes@);
    let mut k: usize = 0;
    assert(log@ =~= middle + renames_exchanges(layout, changes, renamed, 0));
    assert(notes_view(notes@) =~= noted_middle + renames_notes(layout, changes, renamed, 0));
    while k < renames.len()
        invariant
            k <= renames.len(),
            notes_view(notes@) == noted_middle + renames_notes(layout, changes, renamed, k as int),
            layout == tables_view(schema@),
            changes == renames_view(renames@),
            renamed.len() == k,
            before == old(log)@,
            before.len() <= middle.len(),
            middle.take(before.len() as int) == before,
            forall|n: int|
                0 <= n < k ==> (#[trigger] renamed[n]).outcomes.len() == rename_plan(
                    layout,
                    changes[n],
                    renamed[n],
                ).len(),
            log@ == middle + renames_exchanges(layout, changes, renamed, k as int),
        decreases renames.len() - k,
    {
        let ghost at_rename = log@;
        assert(changes[k as int] == renames@[k as int]@);
        let answers = match apply_rename(conn, log, notes, schema, &renames[k]) {
            Ok(answers) => answers,
            Err(e) => {
                proof {
                    assert(log@.drop_last() == at_rename);
                    assert(at_rename.take(before.len() as int) =~= middle.take(
                        before.len() as int,
                    ));
                    assert(log@.take(before.len() as int) =~= log@.drop_last().take(
                        before.len() as int,
                    ));
                }
                return Err(e);
            },
        };
        proof {
            let next = renamed.push(answers@);
            lemma_renames_exchanges_prefix(layout, changes, renamed, next, k as int);
            lemma_renames_notes_prefix(layout, changes, renamed, next, k as int);
            assert(log@ =~= middle + renames_exchanges(layout, changes, next, k + 1));
            assert(notes_view(notes@) =~= noted_middle + renames_notes(
                layout,
                changes,
                next,
                k + 1,
            ));
            renamed = next;
        }
        k += 1;
    }
    Ok(Ghost(MigrationAnswers { tables, renames: renamed }))
}

/// Drops the live tables that a removed controller left behind: lists the
/// tables of the store and hands over one drop for each orphan, passing
/// over those that the store refuses. It fails only where the store does
/// not list its tables. Returns what the store answered.
fn cleanup_controller_tables(
    conn: &rusqlite::Connection,
    log: &mut Ghost<Seq<Exchange>>,
    schema: &Vec<Table>,
) -> (r: Result<Ghost<ListAnswers>, StoreError>)
    ensures
        match r {
            Ok(answers) => {
                &&& answers@.outcomes.len() == cleanup_statements(
                    tables_view(schema@),
                    names_of(readable(answers@.rows)),
                ).len()
                &&& final(log)@ == old(log)@ + cleanup_exchanges(tables_view(schema@), answers@)
            },
            Err(e) => {
                &&& e == StoreError::StoreIO
                &&& final(log)@ == old(log)@.push(
                    Exchange::Listed { sql: LIST_TABLES_SQL@, first: 0, second: 0, rows: None },
                )
            },
        },
{
    let ghost before = log@;
    let rows = match list_rows(conn, log, LIST_TABLES_SQL, 0, 0) {
        Some(rows) => rows,
        None => {
            return Err(StoreError::StoreIO);
        },
    };
    let live = first_components(&readable_rows(&rows));
    let statements = plan_cleanup(schema, &live);
    let outcomes = run_all(conn, log, &statements);
    let ghost answers = ListAnswers { rows: rows_view(rows@), outcomes: outcomes_view(outcomes@) };
    assert(log@ =~= before + cleanup_exchanges(tables_view(schema@), answers));
    Ok(Ghost(answers))
}

/// Some entry of `settings` is named `name`.
pub open spec fn listed(settings: Seq<(String, SettingValue)>, name: Seq<char>) -> bool {
    exists|k: int| 0 <= k < settings.len() && (#[trigger] settings[k]).0@ == name
}

/// The names of `after` are those of `before`, in their places, and
/// perhaps one more at the end.
pub open spec fn keeps_names(
    before: Seq<(String, SettingValue)>,
    after: Seq<(String, SettingValue)>,
) -> bool {
    &&& before.len() <= after.len()
    &&& forall|k: int| 0 <= k < before.len() ==> (#[trigger] after[k]).0@ == before[k].0@
}

/// A name that was listed stays listed.
pub proof fn lemma_listed_stays(
    before: Seq<(String, SettingValue)>,
    after: Seq<(String, SettingValue)>,
    name: Seq<char>,
)
    requires
        keeps_names(before, after),
        listed(before, name),
    ensures
        listed(after, name),
{
    let k = choose|k: int| 0 <= k < before.len() && (#[trigger] before[k]).0@ == name;
    assert(after[k].0@ == name);
}

/// Sets the entry named `name` to `value`: the entry of that name gets the
/// value, and where there is none, one is added at the end.
fn put(settings: &mut Vec<(String, SettingValue)>, name: &str, value: SettingValue)
    requires
        forall|a: int, b: int|
            0 <= a < b < old(settings)@.len() ==> (#[trigger] old(settings)@[a]).0@ != (
            #[trigger] old(settings)@[b]).0@,
    ensures
        keeps_names(old(settings)@, final(settings)@),
        final(settings)@.len() <= old(settings)@.len() + 1,
        listed(final(settings)@, name@),
        forall|a: int, b: int|
            0 <= a < b < final(settings)@.len() ==> (#[trigger] final(settings)@[a]).0@ != (
            #[trigger] final(settings)@[b]).0@,
        forall|k: int|
            0 <= k < final(settings)@.len() ==> (#[trigger] final(settings)@[k]).0@ == name@
                && final(settings)@[k].1 == value || (k < old(settings)@.len()
                && final(settings)@[k] == old(settings)@[k]),
{
    let mut i: usize = 0;
    while i < settings.len()
        invariant
            i <= settings.len(),
            settings@ == old(settings)@,
            forall|a: int, b: int|
                0 <= a < b < settings@.len() ==> (#[trigger] settings@[a]).0@ != (
                #[trigger] settings@[b]).0@,
            forall|k: int| 0 <= k < i ==> (#[trigger] settings@[k]).0@ != name@,
        decreases settings.len() - i,
    {
        if str_eq(settings[i].0.as_str(), name) {
            let ghost before = settings@;
            let kept = name.to_owned();
            settings.set(i, (kept, value));
            assert(settings@[i as int].0@ == name@);
            assert forall|k: int| 0 <= k < settings@.len() implies (#[trigger] settings@[k]).0@
                == before[k].0@ by {}
            return;
        }
        i += 1;
    }
    settings.push((name.to_owned(), value));
    assert(settings@[settings@.len() - 1].0@ == name@);
}

/// The exchange `x` reads the setting `key` and gives `v`: the store was
/// asked with the statement that reads `key` in the table that owns it,
/// answered with a cell, and `v` is that cell read by the setting's type.
pub open spec fn read_of(
    x: Exchange,
    schema: Seq<TableSpec>,
    key: Seq<char>,
    v: SettingValueSpec,
) -> bool {
    x matches Exchange::Asked { sql, answer } && sql == select_sql(
        owning_table(schema, key).name,
        key,
    ) && (answer matches Some(raw) && v == decoded(owning_column(schema, key).data_type, raw))
}

/// A value that a read gave has the shape that its setting's type yields.
pub proof fn lemma_read_has_shape(
    x: Exchange,
    schema: Seq<TableSpec>,
    key: Seq<char>,
    v: SettingValueSpec,
)
    requires
        read_of(x, schema, key, v),
    ensures
        has_shape(owning_column(schema, key).data_type, v),
{
}

/// The exchange in which the store gave no answer when asked for `key`.
pub open spec fn failed_read_of(schema: Seq<TableSpec>, key: Seq<char>) -> Exchange {
    Exchange::Asked { sql: select_sql(owning_table(schema, key).name, key), answer: None }
}

/// What is handed to the store to write `value` to the setting `key`: the
/// statement that writes `key` in the table that owns it, with the value
/// bound as the setting's type asks.
pub open spec fn write_command(schema: Seq<TableSpec>, key: Seq<char>, value: Seq<char>) -> Command {
    Command {
        sql: update_sql(owning_table(schema, key).name, key),
        params: match bound_param(owning_column(schema, key).data_type, value) {
            Some(p) => seq![p],
            None => Seq::empty(),
        },
    }
}

/// The number of columns that the first `t` tables of `schema` declare.
pub open spec fn columns_before(schema: Seq<TableSpec>, t: int) -> int
    decreases t,
{
    if t <= 0 {
        0
    } else {
        columns_before(schema, t - 1) + schema[t - 1].columns.len()
    }
}

/// The exchange that read column `c` of table `t` in a read of every
/// declared setting that began after `start` exchanges.
pub open spec fn nth_read(journal: Seq<Exchange>, start: int, schema: Seq<TableSpec>, t: int, c: int) -> Exchange {
    journal[start + columns_before(schema, t) + c]
}

/// A read of every declared setting went through: one exchange for each
/// declared column, table by table and column by column, each of them the
/// read of that column's name, answered.
pub open spec fn all_read(before: Seq<Exchange>, after: Seq<Exchange>, schema: Seq<TableSpec>) -> bool {
    &&& after.len() == before.len() + columns_before(schema, schema.len() as int)
    &&& after.take(before.len() as int) == before
    &&& forall|t: int, c: int|
        0 <= t < schema.len() && 0 <= c < schema[t].columns.len() ==> exists|
            v: SettingValueSpec,
        |
            read_of(
                #[trigger] nth_read(after, before.len() as int, schema, t, c),
                schema,
                schema[t].columns[c].name,
                v,
            )
}

/// The grouped read gives, for every table in order and every column of it
/// in order, the column's name with the value that the exchange for that
/// column gave.
pub open spec fn grouped_as_read(
    before: Seq<Exchange>,
    after: Seq<Exchange>,
    schema: Seq<TableSpec>,
    groups: Seq<(&'static str, Vec<(String, SettingValue)>)>,
) -> bool {
    &&& groups.len() == schema.len()
    &&& forall|t: int|
        0 <= t < groups.len() ==> {
            &&& (#[trigger] groups[t]).0@ == schema[t].name
            &&& groups[t].1@.len() == schema[t].columns.len()
            &&& forall|c: int|
                0 <= c < groups[t].1@.len() ==> {
                    &&& (#[trigger] groups[t].1@[c]).0@ == schema[t].columns[c].name
                    &&& read_of(
                        nth_read(after, before.len() as int, schema, t, c),
                        schema,
                        schema[t].columns[c].name,
                        groups[t].1@[c].1@,
                    )
                }
        }
}

/// A read of every declared setting broke off: the store gave no answer to
/// the last question, and had answered every question before it.
pub open spec fn read_broke_off(before: Seq<Exchange>, after: Seq<Exchange>) -> bool {
    &&& before.len() < after.len()
    &&& after.take(before.len() as int) == before
    &&& after.last() matches Exchange::Asked { answer, .. } && answer is None
    &&& forall|i: int| before.len() <= i < after.len() - 1 ==> !is_refusal(#[trigger] after[i])
}

/// The value `v` listed under `name` is what some read of a column of that
/// name gave.
pub open spec fn value_read(
    journal: Seq<Exchange>,
    start: int,
    schema: Seq<TableSpec>,
    name: Seq<char>,
    v: SettingValueSpec,
) -> bool {
    exists|t: int, c: int|
        0 <= t < schema.len() && 0 <= c < schema[t].columns.len() && (
        #[trigger] schema[t].columns[c]).name == name && read_of(
            nth_read(journal, start, schema, t, c),
            schema,
            name,
            v,
        )
}

/// Reads the setting `key` and puts the exchange on record.
fn read_setting(
    conn: &rusqlite::Connection,
    log: &mut Ghost<Seq<Exchange>>,
    schema: &Vec<Table>,
    key: &str,
) -> (r: Result<SettingValue, StoreError>)
    ensures
        match r {
            Ok(v) => {
                &&& knows(tables_view(schema@), key@)
                &&& final(log)@.len() == old(log)@.len() + 1
                &&& final(log)@.drop_last() == old(log)@
                &&& read_of(final(log)@.last(), tables_view(schema@), key@, v@)
            },
            Err(e) => if knows(tables_view(schema@), key@) {
                e == StoreError::StoreIO && final(log)@ == old(log)@.push(
                    failed_read_of(tables_view(schema@), key@),
                )
            } else {
                e == StoreError::NotFound && final(log)@ == old(log)@
            },
        },
{
    let ghost before = log@;
    match read_plan(schema, key) {
        Ok((sql, t)) => {
            let answer = ask(conn, log, sql.as_str());
            assert(log@.drop_last() =~= before);
            read_outcome(t, answer)
        },
        Err(e) => Err(e),
    }
}

/// Writes `value` to the setting `key` and puts the exchange on record.
fn write_setting(
    conn: &rusqlite::Connection,
    log: &mut Ghost<Seq<Exchange>>,
    schema: &Vec<Table>,
    key: &str,
    value: &str,
) -> (r: Result<(), StoreError>)
    ensures
        match r {
            Ok(_) => {
                &&& knows(tables_view(schema@), key@)
                &&& value_fits(owning_column(tables_view(schema@), key@).data_type, value@)
                &&& final(log)@.len() == old(log)@.len() + 1
                &&& final(log)@.drop_last() == old(log)@
                &&& final(log)@.last() matches Exchange::Handed { command, outcome }
                &&& command == write_command(tables_view(schema@), key@, value@)
                &&& outcome is Some
            },
            Err(e) => if !knows(tables_view(schema@), key@) {
                e == StoreError::NotFound && final(log)@ == old(log)@
            } else if !value_fits(owning_column(tables_view(schema@), key@).data_type, value@) {
                e == StoreError::InvalidValue && final(log)@ == old(log)@
            } else {
                e == StoreError::StoreIO && final(log)@ == old(log)@.push(
                    Exchange::Handed {
                        command: write_command(tables_view(schema@), key@, value@),
                        outcome: None,
                    },
                )
            },
        },
{
    let ghost before = log@;
    match write_plan(schema, key, value) {
        Ok((sql, param)) => {
            let params = one_param(param);
            assert(params_view(params@) =~= seq![param@]);
            let answer = issue(conn, log, sql.as_str(), &params);
            assert(log@.drop_last() =~= before);
            write_outcome(answer)
        },
        Err(e) => Err(e),
    }
}

/// Reads every declared setting, table by table and column by column, and
/// puts the exchanges on record. Where the store gives no answer, the read
/// breaks off there.
fn read_grouped(conn: &rusqlite::Connection, log: &mut Ghost<Seq<Exchange>>, schema: &Vec<Table>) -> (r:
    Result<Vec<(&'static str, Vec<(String, SettingValue)>)>, StoreError>)
    ensures
        match r {
            Ok(groups) => all_read(old(log)@, final(log)@, tables_view(schema@)) && grouped_as_read(
                old(log)@,
                final(log)@,
                tables_view(schema@),
                groups@,
            ),
            Err(e) => e == StoreError::StoreIO && read_broke_off(old(log)@, final(log)@),
        },
{
    let ghost before = log@;
    let ghost start = before.len() as int;
    let ghost view = tables_view(schema@);
    let ghost mut added: Seq<Exchange> = Seq::empty();
    let mut grouped: Vec<(&'static str, Vec<(String, SettingValue)>)> = Vec::new();
    let mut i: usize = 0;
    assert(log@ =~= before + added);
    while i < schema.len()
        invariant
            i <= schema.len(),
            before == old(log)@,
            start == before.len(),
            view == tables_view(schema@),
            log@ == before + added,
            added.len() == columns_before(view, i as int),
            forall|t: int|
                0 <= t < i ==> 0 <= #[trigger] columns_before(view, t) && columns_before(view, t)
                    + view[t].columns.len() <= added.len(),
            forall|k: int| 0 <= k < added.len() ==> !is_refusal(#[trigger] added[k]),
            grouped@.len() == i,
            forall|t: int|
                0 <= t < i ==> {
                    &&& (#[trigger] grouped@[t]).0@ == view[t].name
                    &&& grouped@[t].1@.len() == view[t].columns.len()
                    &&& forall|c: int|
                        0 <= c < grouped@[t].1@.len() ==> {
                            &&& (#[trigger] grouped@[t].1@[c]).0@ == view[t].columns[c].name
                            &&& read_of(
                                added[columns_before(view, t) + c],
                                view,
                                view[t].columns[c].name,
                                grouped@[t].1@[c].1@,
                            )
                        }
                },
        decreases schema.len() - i,
    {
        let table = &schema[i];
        let ghost columns = view[i as int].columns;
        let ghost offset = columns_before(view, i as int);
        proof {
            lemma_columns_before_covers(view, i as int);
        }
        assert(columns == columns_view(table.columns@));
        let mut settings: Vec<(String, SettingValue)> = Vec::new();
        let mut j: usize = 0;
        while j < table.columns.len()
            invariant
                j <= table.columns.len(),
                i < schema.len(),
                before == old(log)@,
                start == before.len(),
                view == tables_view(schema@),
                columns == columns_view(table.columns@),
                columns == view[i as int].columns,
                offset == columns_before(view, i as int),
                log@ == before + added,
                added.len() == offset + j,
                0 <= offset,
                forall|t: int|
                    0 <= t < i ==> 0 <= #[trigger] columns_before(view, t) && columns_before(
                        view,
                        t,
                    ) + view[t].columns.len() <= offset,
                forall|k: int| 0 <= k < added.len() ==> !is_refusal(#[trigger] added[k]),
                grouped@.len() == i,
                forall|t: int|
                    0 <= t < i ==> {
                        &&& (#[trigger] grouped@[t]).0@ == view[t].name
                        &&& grouped@[t].1@.len() == view[t].columns.len()
                        &&& forall|c: int|
                            0 <= c < grouped@[t].1@.len() ==> {
                                &&& (#[trigger] grouped@[t].1@[c]).0@ == view[t].columns[c].name
                                &&& read_of(
                                    added[columns_before(view, t) + c],
                                    view,
                                    view[t].columns[c].name,
                                    grouped@[t].1@[c].1@,
                                )
                            }
                    },
                settings@.len() == j,
                forall|c: int|
                    0 <= c < j ==> {
                        &&& (#[trigger] settings@[c]).0@ == columns[c].name
                        &&& read_of(added[offset + c], view, columns[c].name, settings@[c].1@)
                    },
            decreases table.columns.len() - j,
        {
            let name = table.columns[j].name;
            assert(columns[j as int].name == name@);
            assert(crate::database::composer::declares(view[i as int], name@));
            let ghost asked_before = log@;
            let value = match read_setting(conn, log, schema, name) {
                Ok(v) => v,
                Err(_) => {
                    proof {
                        assert(log@ =~= before + added.push(failed_read_of(view, name@)));
                        assert(log@.take(before.len() as int) =~= before);
                        assert forall|k: int| before.len() <= k < log@.len() - 1 implies !is_refusal(
                            #[trigger] log@[k],
                        ) by {
                            assert(log@[k] == added[k - before.len()]);
                        }
                    }
                    return Err(StoreError::StoreIO);
                },
            };
            proof {
                let earlier = added;
                added = earlier.push(log@.last());
                assert(log@.drop_last() == asked_before);
                assert(log@ =~= asked_before.push(log@.last()));
                assert(log@ =~= before + added);
                assert forall|k: int| 0 <= k < earlier.len() implies added[k] == earlier[k] by {}
            }
            settings.push((name.to_owned(), value));
            j += 1;
        }
        grouped.push((table.name, settings));
        assert(view[i as int].name == table.name@);
        i += 1;
    }
    proof {
        assert(log@.take(before.len() as int) =~= before);
        assert forall|t: int, c: int|
            0 <= t < view.len() && 0 <= c < view[t].columns.len() implies exists|
            v: SettingValueSpec,
        |
            read_of(
                #[trigger] nth_read(log@, start, view, t, c),
                view,
                view[t].columns[c].name,
                v,
            ) by {
            assert(nth_read(log@, start, view, t, c) == added[columns_before(view, t) + c]);
            assert(read_of(
                nth_read(log@, start, view, t, c),
                view,
                view[t].columns[c].name,
                grouped@[t].1@[c].1@,
            ));
        }
        assert forall|t: int, c: int|
            0 <= t < grouped@.len() && 0 <= c < grouped@[t].1@.len() implies read_of(
            nth_read(log@, start, view, t, c),
            view,
            view[t].columns[c].name,
            (#[trigger] grouped@[t].1@[c]).1@,
        ) by {
            assert(nth_read(log@, start, view, t, c) == added[columns_before(view, t) + c]);
        }
    }
    Ok(grouped)
}

/// The columns before a table are no more than those before a later one.
pub proof fn lemma_columns_before_grows(schema: Seq<TableSpec>, t: int, u: int)
    requires
        0 <= t <= u,
    ensures
        0 <= columns_before(schema, t) <= columns_before(schema, u),
    decreases u,
{
    if t < u {
        lemma_columns_before_grows(schema, t, u - 1);
    } else if t > 0 {
        lemma_columns_before_grows(schema, t - 1, t - 1);
        lemma_columns_before_grows(schema, 0, t - 1);
    }
}

/// The columns before a table come before those of the table itself.
pub proof fn lemma_columns_before_covers(schema: Seq<TableSpec>, t: int)
    requires
        0 <= t,
    ensures
        0 <= columns_before(schema, t),
        columns_before(schema, t + 1) == columns_before(schema, t) + schema[t].columns.len(),
{
    lemma_columns_before_grows(schema, 0, t);
}

/// Some entry of `groups` holds `v` under `name`.
pub open spec fn taken_from(
    groups: Seq<(&'static str, Vec<(String, SettingValue)>)>,
    name: Seq<char>,
    v: SettingValueSpec,
) -> bool {
    exists|t: int, c: int|
        0 <= t < groups.len() && 0 <= c < groups[t].1@.len() && (#[trigger] groups[t].1@[c]).0@
            == name && groups[t].1@[c].1@ == v
}

/// The settings of all groups in one list in which no name occurs twice:
/// where a name occurs again, its entry takes the later value.
fn flatten(groups: &Vec<(&'static str, Vec<(String, SettingValue)>)>) -> (r: Vec<
    (String, SettingValue),
>)
    ensures
        forall|a: int, b: int|
            0 <= a < b < r@.len() ==> (#[trigger] r@[a]).0@ != (#[trigger] r@[b]).0@,
        forall|k: int| 0 <= k < r@.len() ==> taken_from(groups@, (#[trigger] r@[k]).0@, r@[k].1@),
        forall|t: int, c: int|
            0 <= t < groups@.len() && 0 <= c < groups@[t].1@.len() ==> listed(
                r@,
                (#[trigger] groups@[t].1@[c]).0@,
            ),
{
    let mut out: Vec<(String, SettingValue)> = Vec::new();
    let mut i: usize = 0;
    while i < groups.len()
        invariant
            i <= groups.len(),
            forall|a: int, b: int|
                0 <= a < b < out@.len() ==> (#[trigger] out@[a]).0@ != (#[trigger] out@[b]).0@,
            forall|k: int|
                0 <= k < out@.len() ==> taken_from(groups@, (#[trigger] out@[k]).0@, out@[k].1@),
            forall|t: int, c: int|
                0 <= t < i && 0 <= c < groups@[t].1@.len() ==> listed(
                    out@,
                    (#[trigger] groups@[t].1@[c]).0@,
                ),
        decreases groups.len() - i,
    {
        let entries = &groups[i].1;
        let mut j: usize = 0;
        while j < entries.len()
            invariant
                j <= entries.len(),
                i < groups.len(),
                entries == groups@[i as int].1,
                forall|a: int, b: int|
                    0 <= a < b < out@.len() ==> (#[trigger] out@[a]).0@ != (#[trigger] out@[b]).0@,
                forall|k: int|
                    0 <= k < out@.len() ==> taken_from(
                        groups@,
                        (#[trigger] out@[k]).0@,
                        out@[k].1@,
                    ),
                forall|t: int, c: int|
                    0 <= t < i && 0 <= c < groups@[t].1@.len() ==> listed(
                        out@,
                        (#[trigger] groups@[t].1@[c]).0@,
                    ),
                forall|c: int| 0 <= c < j ==> listed(out@, (#[trigger] entries@[c]).0@),
            decreases entries.len() - j,
        {
            let ghost before = out@;
            let value = entries[j].1.duplicate();
            let ghost seen = value@;
            put(&mut out, entries[j].0.as_str(), value);
            proof {
                assert forall|k: int| 0 <= k < out@.len() implies taken_from(
                    groups@,
                    (#[trigger] out@[k]).0@,
                    out@[k].1@,
                ) by {
                    if k < before.len() && out@[k] == before[k] {
                    } else {
                        assert(groups@[i as int].1@[j as int].0@ == out@[k].0@);
                        assert(out@[k].1@ == seen);
                    }
                }
                assert forall|t: int, c: int|
                    0 <= t < i && 0 <= c < groups@[t].1@.len() implies listed(
                    out@,
                    (#[trigger] groups@[t].1@[c]).0@,
                ) by {
                    lemma_listed_stays(before, out@, groups@[t].1@[c].0@);
                }
                assert forall|c: int| 0 <= c < j + 1 implies listed(
                    out@,
                    (#[trigger] entries@[c]).0@,
                ) by {
                    if c < j {
                        lemma_listed_stays(before, out@, entries@[c].0@);
                    }
                }
            }
            j += 1;
        }
        i += 1;
    }
    out
}

/// The settings store behind one connection, with the layout of this run
/// and the record of every exchange with the store.
pub struct SqlDbManager {
    conn: rusqlite::Connection,
    full_schema: Vec<Table>,
    opening: Ghost<Opening>,
    journal: Ghost<Seq<Exchange>>,
    notes: Vec<MigrationNote>,
}

impl SqlDbManager {
    /// The layout of this run.
    pub closed spec fn schema(&self) -> Seq<TableSpec> {
        tables_view(self.full_schema@)
    }

    /// What the store answered while it was opened.
    pub closed spec fn opening(&self) -> Opening {
        self.opening@
    }

    /// Every exchange with the store since it was opened, in order.
    pub closed spec fn journal(&self) -> Seq<Exchange> {
        self.journal@
    }

    /// The notes of the migration that opening the store brought about.
    pub closed spec fn notes(&self) -> Seq<NoteSpec> {
        notes_view(self.notes@)
    }

    /// The notes of the migration that opening the store brought about:
    /// every statement that was handed to the store, in order, with
    /// whether the store took it. A statement that it did not take was
    /// passed over.
    pub fn migration_notes(&self) -> (r: Vec<MigrationNote>)
        ensures
            notes_view(r@) == self.notes(),
    {
        let mut out: Vec<MigrationNote> = Vec::new();
        let mut i: usize = 0;
        while i < self.notes.len()
            invariant
                i <= self.notes.len(),
                notes_view(out@) == notes_view(self.notes@).take(i as int),
            decreases self.notes.len() - i,
        {
            let ghost before = out@;
            out.push(
                MigrationNote {
                    statement: self.notes[i].statement.clone(),
                    taken: self.notes[i].taken,
                },
            );
            assert(notes_view(out@) =~= notes_view(before).push(self.notes@[i as int]@));
            assert(notes_view(out@) =~= notes_view(self.notes@).take(i + 1));
            i += 1;
        }
        assert(notes_view(self.notes@).take(self.notes.len() as int) =~= notes_view(self.notes@));
        out
    }

    /// Opens the store at `db_path` with the application's layout, creating
    /// it where there is none, migrating it where it is older than the
    /// layout, and dropping what removed controllers left behind.
    pub fn new(db_path: &str) -> (r: Result<Self, StoreError>)
        ensures
            match r {
                Ok(store) => {
                    &&& store.schema() == default_tables()
                    &&& opening_fits(
                        default_tables(),
                        SCHEMA_VERSION,
                        Seq::empty(),
                        store.opening(),
                    )
                    &&& store.journal() == opening_exchanges(
                        default_tables(),
                        SCHEMA_VERSION,
                        Seq::empty(),
                        store.opening(),
                    )
                    &&& store.notes() == opening_notes(
                        default_tables(),
                        SCHEMA_VERSION,
                        Seq::empty(),
                        store.opening(),
                    )
                },
                Err(e) => e == StoreError::StoreIO || e == StoreError::SchemaIntegrity,
            },
    {
        let existed = path_exists(db_path);
        let conn = match open_database(db_path) {
            Ok(conn) => conn,
            Err(_) => {
                return Err(StoreError::StoreIO);
            },
        };
        let schema = default_schema();
        let renames = renames();
        assert(renames_view(renames@) =~= Seq::<RenameSpec>::empty());
        Self::open_or_create(conn, existed, schema, SCHEMA_VERSION, &renames)
    }

    /// Brings the store behind `conn` to the layout `schema` at `version`.
    /// `existed` tells whether there was a store before the connection was
    /// opened. A new store is created whole or not at all. An existing one
    /// is migrated where its version on record is below `version`, and is
    /// then cleared of the tables that removed controllers left behind.
    /// Every exchange with the store is fixed by what the store answers.
    /// The opening goes through only where the store took every statement
    /// of a creation and of the record of the version, listed what it was
    /// asked to list, and reported no column twice. It fails as soon as
    /// the store says no to one of these, and nothing is exchanged after
    /// that. The exchanges are returned beside the result, so that a
    /// failure can be told from them.
    pub fn open_recorded(
        conn: rusqlite::Connection,
        existed: bool,
        schema: Vec<Table>,
        version: u32,
        renames: &Vec<Rename>,
    ) -> (r: (Result<Self, StoreError>, Ghost<Seq<Exchange>>))
        ensures
            match r.0 {
                Ok(store) => {
                    &&& store.schema() == tables_view(schema@)
                    &&& store.journal() == r.1@
                    &&& store.opening().existed == existed
                    &&& opening_fits(
                        tables_view(schema@),
                        version,
                        renames_view(renames@),
                        store.opening(),
                    )
                    &&& store.journal() == opening_exchanges(
                        tables_view(schema@),
                        version,
                        renames_view(renames@),
                        store.opening(),
                    )
                    &&& store.notes() == opening_notes(
                        tables_view(schema@),
                        version,
                        renames_view(renames@),
                        store.opening(),
                    )
                },
                Err(e) => opening_failed(r.1@, e) && (e == StoreError::StoreIO || existed),
            },
    {
        let mut conn = conn;
        let mut log: Ghost<Seq<Exchange>> = Ghost(Seq::empty());
        let mut notes: Vec<MigrationNote> = Vec::new();
        assert(notes_view(notes@) =~= Seq::<NoteSpec>::empty());
        let (persisted, version_read) = if existed {
            get_schema_version(&conn, &mut log)
        } else {
            (0, Ghost(None))
        };
        let ghost asked = log@;
        let ghost layout = tables_view(schema@);
        let ghost changes = renames_view(renames@);
        let ghost mut creation: Seq<Option<int>> = Seq::empty();
        let ghost mut tables: Seq<TableAnswers> = Seq::empty();
        let ghost mut renamed: Seq<ListAnswers> = Seq::empty();
        let ghost mut recorded: Seq<Option<int>> = Seq::empty();
        let ghost mut cleanup = ListAnswers { rows: Seq::empty(), outcomes: Seq::empty() };
        match decide_startup(existed, persisted, version) {
            Startup::Initialize => {
                match initialize_database_with_schema(&mut conn, &mut log, &schema, version) {
                    Ok(outcomes) => {
                        proof {
                            creation = outcomes@;
                        }
                    },
                    Err(e) => {
                        return (Err(e), log);
                    },
                }
                match set_schema_version(&conn, &mut log, version) {
                    Ok(outcomes) => {
                        proof {
                            recorded = outcomes@;
                        }
                    },
                    Err(e) => {
                        return (Err(e), log);
                    },
                }
                assert(log@ =~= asked + (creation_exchanges(layout, version, creation)
                    + version_exchanges(version, recorded)));
            },
            Startup::Migrate => {
                match migrate_schema_with_schema(&conn, &mut log, &mut notes, &schema, renames) {
                    Ok(answers) => {
                        proof {
                            tables = answers@.tables;
                            renamed = answers@.renames;
                        }
                    },
                    Err(e) => {
                        return (Err(e), log);
                    },
                }
                match set_schema_version(&conn, &mut log, version) {
                    Ok(outcomes) => {
                        proof {
                            recorded = outcomes@;
                        }
                    },
                    Err(e) => {
                        return (Err(e), log);
                    },
                }
                match cleanup_controller_tables(&conn, &mut log, &schema) {
                    Ok(answers) => {
                        proof {
                            cleanup = answers@;
                        }
                    },
                    Err(e) => {
                        return (Err(e), log);
                    },
                }
                assert(log@ =~= asked + (tables_exchanges(layout, tables, layout.len() as int)
                    + renames_exchanges(layout, changes, renamed, changes.len() as int)
                    + version_exchanges(version, recorded) + cleanup_exchanges(layout, cleanup)));
                assert(notes_view(notes@) =~= tables_notes(layout, tables, layout.len() as int)
                    + renames_notes(layout, changes, renamed, changes.len() as int));
            },
            Startup::UpToDate => {
                match cleanup_controller_tables(&conn, &mut log, &schema) {
                    Ok(answers) => {
                        proof {
                            cleanup = answers@;
                        }
                    },
                    Err(e) => {
                        return (Err(e), log);
                    },
                }
                assert(log@ =~= asked + cleanup_exchanges(layout, cleanup));
            },
        }
        let opening = Ghost(
            Opening {
                existed,
                version_read: version_read@,
                persisted,
                creation,
                tables,
                renames: renamed,
                version: recorded,
                cleanup,
            },
        );
        let ghost trace = log@;
        (Ok(SqlDbManager { conn, full_schema: schema, opening, journal: log, notes }), Ghost(trace))
    }

    /// Brings the store behind `conn` to the layout `schema` at `version`.
    /// `existed` tells whether there was a store before the connection was
    /// opened. A new store is created whole or not at all. An existing one
    /// is migrated where its version on record is below `version`, and is
    /// then cleared of the tables that removed controllers left behind.
    /// Every exchange with the store is fixed by what the store answers.
    /// The opening goes through only where the store took every statement
    /// of a creation and of the record of the version, listed what it was
    /// asked to list, and reported no column twice.
    pub fn open_or_create(
        conn: rusqlite::Connection,
        existed: bool,
        schema: Vec<Table>,
        version: u32,
        renames: &Vec<Rename>,
    ) -> (r: Result<Self, StoreError>)
        ensures
            match r {
                Ok(store) => {
                    &&& store.schema() == tables_view(schema@)
                    &&& store.opening().existed == existed
                    &&& opening_fits(
                        tables_view(schema@),
                        version,
                        renames_view(renames@),
                        store.opening(),
                    )
                    &&& store.journal() == opening_exchanges(
                        tables_view(schema@),
                        version,
                        renames_view(renames@),
                        store.opening(),
                    )
                    &&& store.notes() == opening_notes(
                        tables_view(schema@),
                        version,
                        renames_view(renames@),
                        store.opening(),
                    )
                },
                Err(e) => e == StoreError::StoreIO || (existed && e == StoreError::SchemaIntegrity),
            },
    {
        Self::open_recorded(conn, existed, schema, version, renames).0
    }

    /// Asks the store for the version that it has on record: the integer
    /// that it answers with, and 0 where it gives no answer or none that is
    /// a version.
    pub fn schema_version(&mut self) -> (r: u32)
        ensures
            final(self).schema() == old(self).schema(),
            final(self).opening() == old(self).opening(),
            final(self).notes() == old(self).notes(),
            final(self).journal().len() == old(self).journal().len() + 1,
            final(self).journal().drop_last() == old(self).journal(),
            final(self).journal().last() matches Exchange::Asked { sql, answer } && sql
                == SELECT_META_SQL@ && r == recorded_version(answer),
    {
        let ghost before = self.journal@;
        let r = get_schema_version(&self.conn, &mut self.journal);
        assert(self.journal@.drop_last() =~= before);
        r.0
    }

    /// The table and the column in which `key` is kept.
    pub fn find_table_and_column(&self, key: &str) -> (r: Result<
        (&'static str, Column),
        StoreError,
    >)
        ensures
            match r {
                Ok((table, column)) => {
                    &&& knows(self.schema(), key@)
                    &&& table@ == owning_table(self.schema(), key@).name
                    &&& column@ == owning_column(self.schema(), key@)
                },
                Err(e) => e == StoreError::NotFound && !knows(self.schema(), key@),
            },
    {
        resolve(&self.full_schema, key)
    }

    /// Reads the setting `key`. A name that no table declares is not
    /// found, and the store is not asked. Otherwise the store is asked with
    /// the statement that reads `key` in the table that owns it: its answer
    /// is read by the setting's declared type, and where it gives none, the
    /// read fails.
    pub fn get_setting(&mut self, key: &str) -> (r: Result<SettingValue, StoreError>)
        ensures
            final(self).schema() == old(self).schema(),
            final(self).opening() == old(self).opening(),
            final(self).notes() == old(self).notes(),
            match r {
                Ok(v) => {
                    &&& knows(old(self).schema(), key@)
                    &&& final(self).journal().len() == old(self).journal().len() + 1
                    &&& final(self).journal().drop_last() == old(self).journal()
                    &&& read_of(final(self).journal().last(), old(self).schema(), key@, v@)
                },
                Err(e) => if knows(old(self).schema(), key@) {
                    e == StoreError::StoreIO && final(self).journal() == old(self).journal().push(
                        failed_read_of(old(self).schema(), key@),
                    )
                } else {
                    e == StoreError::NotFound && final(self).journal() == old(self).journal()
                },
            },
    {
        read_setting(&self.conn, &mut self.journal, &self.full_schema, key)
    }

    /// Writes `value` to the setting `key`. A name that no table declares
    /// is not found, and a value that does not fit the setting's declared
    /// type is invalid; the store is handed nothing then. Otherwise the
    /// store is handed the statement that writes `key` in the single row of
    /// the table that owns it, and the write is done where the store takes
    /// it.
    pub fn set_setting(&mut self, key: &str, value: &str) -> (r: Result<(), StoreError>)
        ensures
            final(self).schema() == old(self).schema(),
            final(self).opening() == old(self).opening(),
            final(self).notes() == old(self).notes(),
            match r {
                Ok(_) => {
                    &&& knows(old(self).schema(), key@)
                    &&& value_fits(owning_column(old(self).schema(), key@).data_type, value@)
                    &&& final(self).journal().len() == old(self).journal().len() + 1
                    &&& final(self).journal().drop_last() == old(self).journal()
                    &&& final(self).journal().last() matches Exchange::Handed { command, outcome }
                    &&& command == write_command(old(self).schema(), key@, value@)
                    &&& outcome is Some
                },
                Err(e) => if !knows(old(self).schema(), key@) {
                    e == StoreError::NotFound && final(self).journal() == old(self).journal()
                } else if !value_fits(
                    owning_column(old(self).schema(), key@).data_type,
                    value@,
                ) {
                    e == StoreError::InvalidValue && final(self).journal() == old(self).journal()
                } else {
                    e == StoreError::StoreIO && final(self).journal() == old(self).journal().push(
                        Exchange::Handed {
                            command: write_command(old(self).schema(), key@, value@),
                            outcome: None,
                        },
                    )
                },
            },
    {
        write_setting(&self.conn, &mut self.journal, &self.full_schema, key, value)
    }

    /// Reads every declared setting into a list in which no name occurs
    /// twice. Every declared column is read, table by table and column by
    /// column, each through the statement that reads its name in the table
    /// that owns the name; each value listed is what such a read gave.
    /// Where the store gives no answer, the read breaks off and nothing is
    /// returned.
    pub fn _get_all_settings(&mut self) -> (r: Result<Vec<(String, SettingValue)>, StoreError>)
        ensures
            final(self).schema() == old(self).schema(),
            final(self).opening() == old(self).opening(),
            final(self).notes() == old(self).notes(),
            match r {
                Ok(settings) => {
                    &&& all_read(old(self).journal(), final(self).journal(), old(self).schema())
                    &&& forall|a: int, b: int|
                        0 <= a < b < settings@.len() ==> (#[trigger] settings@[a]).0@ != (
                        #[trigger] settings@[b]).0@
                    &&& forall|k: int|
                        0 <= k < settings@.len() ==> value_read(
                            final(self).journal(),
                            old(self).journal().len() as int,
                            old(self).schema(),
                            (#[trigger] settings@[k]).0@,
                            settings@[k].1@,
                        )
                    &&& forall|t: int, c: int|
                        0 <= t < old(self).schema().len() && 0 <= c < old(
                            self,
                        ).schema()[t].columns.len() ==> listed(
                            settings@,
                            #[trigger] old(self).schema()[t].columns[c].name,
                        )
                },
                Err(e) => e == StoreError::StoreIO && read_broke_off(
                    old(self).journal(),
                    final(self).journal(),
                ),
            },
    {
        let ghost view = self.schema();
        let ghost start = self.journal@.len() as int;
        let groups = match read_grouped(&self.conn, &mut self.journal, &self.full_schema) {
            Ok(groups) => groups,
            Err(e) => {
                return Err(e);
            },
        };
        let settings = flatten(&groups);
        proof {
            let journal = self.journal@;
            assert forall|k: int| 0 <= k < settings@.len() implies value_read(
                journal,
                start,
                view,
                (#[trigger] settings@[k]).0@,
                settings@[k].1@,
            ) by {
                let (t, c) = choose|t: int, c: int|
                    0 <= t < groups@.len() && 0 <= c < groups@[t].1@.len() && (
                    #[trigger] groups@[t].1@[c]).0@ == settings@[k].0@ && groups@[t].1@[c].1@
                        == settings@[k].1@;
                assert(groups@[t].0@ == view[t].name);
                assert(view[t].columns[c].name == settings@[k].0@);
                assert(read_of(
                    nth_read(journal, start, view, t, c),
                    view,
                    settings@[k].0@,
                    settings@[k].1@,
                ));
            }
            assert forall|t: int, c: int|
                0 <= t < view.len() && 0 <= c < view[t].columns.len() implies listed(
                settings@,
                #[trigger] view[t].columns[c].name,
            ) by {
                assert(groups@[t].0@ == view[t].name);
                assert(groups@[t].1@[c].0@ == view[t].columns[c].name);
            }
        }
        Ok(settings)
    }

    /// Reads every declared setting, table by table in the order of the
    /// layout and column by column in the order of the table. Every column
    /// is read through the statement that reads its name in the table that
    /// owns the name, so a name that an earlier table also declares shows
    /// that table's value. Where the store gives no answer, the read breaks
    /// off and nothing is returned.
    pub fn get_all_settings_grouped(&mut self) -> (r: Result<
        Vec<(&'static str, Vec<(String, SettingValue)>)>,
        StoreError,
    >)
        ensures
            final(self).schema() == old(self).schema(),
            final(self).opening() == old(self).opening(),
            final(self).notes() == old(self).notes(),
            match r {
                Ok(groups) => all_read(
                    old(self).journal(),
                    final(self).journal(),
                    old(self).schema(),
                ) && grouped_as_read(
                    old(self).journal(),
                    final(self).journal(),
                    old(self).schema(),
                    groups@,
                ),
                Err(e) => e == StoreError::StoreIO && read_broke_off(
                    old(self).journal(),
                    final(self).journal(),
                ),
            },
    {
        read_grouped(&self.conn, &mut self.journal, &self.full_schema)
    }
}

} // verus!
