//! The text of every statement that the store is handed. Table and column
//! names come from the declared layout, never from a caller's input, and
//! are written into the text as they stand.

use vstd::prelude::*;
use vstd::string::*;
use crate::database::sql_schema::{
    Column, ColumnSpec, Table, TableSpec, columns_view, tables_view,
};

verus! {

/// Creates the table that holds the version of the layout, if the store
/// has not got it.
pub const CREATE_META_SQL: &'static str =
    "CREATE TABLE IF NOT EXISTS meta (id INTEGER PRIMARY KEY, version INTEGER)";

/// Inserts the row that holds the version of the layout.
pub const INSERT_META_SQL: &'static str = "INSERT INTO meta (id, version) VALUES (1, ?1)";

/// Writes the version of the layout into its row.
pub const UPDATE_META_SQL: &'static str = "UPDATE meta SET version = ?1 WHERE id = 1";

/// Reads the version of the layout.
pub const SELECT_META_SQL: &'static str = "SELECT version FROM meta WHERE id = 1";

/// Asks the store for the names of its tables.
pub const LIST_TABLES_SQL: &'static str = "SELECT name FROM sqlite_master WHERE type='table'";

/// One column of a table definition: name, type and default.
pub open spec fn column_definition(c: ColumnSpec) -> Seq<char> {
    c.name + " "@ + c.data_type.spec_sql_name() + " DEFAULT "@ + c.default_value
}

/// The column definitions of a table, separated by a comma and a space.
pub open spec fn column_definitions(columns: Seq<ColumnSpec>) -> Seq<char>
    decreases columns.len(),
{
    if columns.len() == 0 {
        Seq::empty()
    } else if columns.len() == 1 {
        column_definition(columns[0])
    } else {
        column_definitions(columns.drop_last()) + ", "@ + column_definition(columns.last())
    }
}

/// Creates `t` with an integer key and its declared columns.
pub open spec fn create_table_sql(t: TableSpec) -> Seq<char> {
    "CREATE TABLE "@ + t.name + " (id INTEGER PRIMARY KEY, "@ + column_definitions(t.columns)
        + ");"@
}

/// Inserts the single row of `table`, every column at its default.
pub open spec fn insert_row_sql(table: Seq<char>) -> Seq<char> {
    "INSERT INTO "@ + table + " (id) VALUES (1);"@
}

/// Adds the column `c` to `table`, with the column's own default.
pub open spec fn add_column_sql(table: Seq<char>, c: ColumnSpec) -> Seq<char> {
    "ALTER TABLE "@ + table + " ADD COLUMN "@ + column_definition(c)
}

/// Sets the column `c` of the single row of `table` back to its default.
pub open spec fn reset_sql(table: Seq<char>, c: ColumnSpec) -> Seq<char> {
    "UPDATE "@ + table + " SET "@ + c.name + " = "@ + c.default_value + " WHERE id = 1"@
}

/// Copies what `old_column` holds into `new_column` of `table`.
pub open spec fn copy_column_sql(
    table: Seq<char>,
    new_column: Seq<char>,
    old_column: Seq<char>,
) -> Seq<char> {
    "UPDATE "@ + table + " SET "@ + new_column + " = "@ + old_column
}

/// Reads the setting `key` from the single row of `table`.
pub open spec fn select_sql(table: Seq<char>, key: Seq<char>) -> Seq<char> {
    "SELECT "@ + key + " FROM "@ + table + " WHERE id = 1"@
}

/// Writes the bound value to the setting `key` in the single row of `table`.
pub open spec fn update_sql(table: Seq<char>, key: Seq<char>) -> Seq<char> {
    "UPDATE "@ + table + " SET "@ + key + " = ?1 WHERE id = 1"@
}

/// Asks the store for the columns that `table` has.
pub open spec fn table_info_sql(table: Seq<char>) -> Seq<char> {
    "PRAGMA table_info("@ + table + ")"@
}

/// Drops `table` if the store has it.
pub open spec fn drop_table_sql(table: Seq<char>) -> Seq<char> {
    "DROP TABLE IF EXISTS "@ + table
}

/// The statements that create a store with the layout `schema`: for each
/// table in order, one that creates it and one that inserts its single
/// row.
pub open spec fn creation_statements(schema: Seq<TableSpec>) -> Seq<Seq<char>>
    decreases schema.len(),
{
    if schema.len() == 0 {
        Seq::empty()
    } else {
        creation_statements(schema.drop_last()).push(create_table_sql(schema.last())).push(
            insert_row_sql(schema.last().name),
        )
    }
}

/// The text of `column_definition`.
pub fn column_definition_text(c: &Column) -> (r: String)
    ensures
        r@ == column_definition(c@),
{
    let mut r = c.name.to_owned();
    r.append(" ");
    r.append(c.data_type.sql_name());
    r.append(" DEFAULT ");
    r.append(c.default_value);
    r
}

/// The text of `column_definitions`.
pub fn column_definitions_text(columns: &Vec<Column>) -> (r: String)
    ensures
        r@ == column_definitions(columns_view(columns@)),
{
    let mut r = String::new();
    let mut i: usize = 0;
    while i < columns.len()
        invariant
            i <= columns.len(),
            r@ == column_definitions(columns_view(columns@).take(i as int)),
        decreases columns.len() - i,
    {
        let ghost before = columns_view(columns@).take(i as int);
        let ghost after = columns_view(columns@).take(i + 1);
        assert(after.drop_last() =~= before);
        assert(after.last() == columns@[i as int]@);
        if i > 0 {
            r.append(", ");
        }
        let one = column_definition_text(&columns[i]);
        r.append(one.as_str());
        assert(r@ =~= column_definitions(after));
        i += 1;
    }
    assert(columns_view(columns@).take(columns.len() as int) =~= columns_view(columns@));
    r
}

/// The text of `create_table_sql`.
pub fn create_table_text(t: &Table) -> (r: String)
    ensures
        r@ == create_table_sql(t@),
{
    let mut r = "CREATE TABLE ".to_owned();
    r.append(t.name);
    r.append(" (id INTEGER PRIMARY KEY, ");
    let columns = column_definitions_text(&t.columns);
    r.append(columns.as_str());
    r.append(");");
    r
}

/// The text of `insert_row_sql`.
pub fn insert_row_text(table: &str) -> (r: String)
    ensures
        r@ == insert_row_sql(table@),
{
    let mut r = "INSERT INTO ".to_owned();
    r.append(table);
    r.append(" (id) VALUES (1);");
    r
}

/// The text of `add_column_sql`.
pub fn add_column_text(table: &str, c: &Column) -> (r: String)
    ensures
        r@ == add_column_sql(table@, c@),
{
    let mut r = "ALTER TABLE ".to_owned();
    r.append(table);
    r.append(" ADD COLUMN ");
    let definition = column_definition_text(c);
    r.append(definition.as_str());
    r
}

/// The text of `reset_sql`.
pub fn reset_text(table: &str, c: &Column) -> (r: String)
    ensures
        r@ == reset_sql(table@, c@),
{
    let mut r = "UPDATE ".to_owned();
    r.append(table);
    r.append(" SET ");
    r.append(c.name);
    r.append(" = ");
    r.append(c.default_value);
    r.append(" WHERE id = 1");
    r
}

/// The text of `copy_column_sql`.
pub fn copy_column_text(table: &str, new_column: &str, old_column: &str) -> (r: String)
    ensures
        r@ == copy_column_sql(table@, new_column@, old_column@),
{
    let mut r = "UPDATE ".to_owned();
    r.append(table);
    r.append(" SET ");
    r.append(new_column);
    r.append(" = ");
    r.append(old_column);
    r
}

/// The text of `select_sql`.
pub fn select_text(table: &str, key: &str) -> (r: String)
    ensures
        r@ == select_sql(table@, key@),
{
    let mut r = "SELECT ".to_owned();
    r.append(key);
    r.append(" FROM ");
    r.append(table);
    r.append(" WHERE id = 1");
    r
}

/// The text of `update_sql`.
pub fn update_text(table: &str, key: &str) -> (r: String)
    ensures
        r@ == update_sql(table@, key@),
{
    let mut r = "UPDATE ".to_owned();
    r.append(table);
    r.append(" SET ");
    r.append(key);
    r.append(" = ?1 WHERE id = 1");
    r
}

/// The text of `table_info_sql`.
pub fn table_info_text(table: &str) -> (r: String)
    ensures
        r@ == table_info_sql(table@),
{
    let mut r = "PRAGMA table_info(".to_owned();
    r.append(table);
    r.append(")");
    r
}

/// The text of `drop_table_sql`.
pub fn drop_table_text(table: &str) -> (r: String)
    ensures
        r@ == drop_table_sql(table@),
{
    let mut r = "DROP TABLE IF EXISTS ".to_owned();
    r.append(table);
    r
}

/// The statements that create a store with the layout `schema`.
pub fn plan_creation(schema: &Vec<Table>) -> (r: Vec<String>)
    ensures
        r@.map_values(|s: String| s@) == creation_statements(tables_view(schema@)),
{
    let ghost view = tables_view(schema@);
    let mut out: Vec<String> = Vec::new();
    let mut i: usize = 0;
    assert(out@.map_values(|s: String| s@) =~= creation_statements(view.take(0)));
    while i < schema.len()
        invariant
            i <= schema.len(),
            view == tables_view(schema@),
            out@.map_values(|s: String| s@) == creation_statements(view.take(i as int)),
        decreases schema.len() - i,
    {
        let ghost before = out@.map_values(|s: String| s@);
        let table = &schema[i];
        out.push(create_table_text(table));
        out.push(insert_row_text(table.name));
        proof {
            assert(view.take(i + 1).drop_last() =~= view.take(i as int));
            assert(view.take(i + 1).last() == table@);
            assert(out@.map_values(|s: String| s@) =~= before.push(create_table_sql(table@)).push(
                insert_row_sql(table@.name),
            ));
        }
        i += 1;
    }
    assert(view.take(schema.len() as int) =~= view);
    out
}

} // verus!
