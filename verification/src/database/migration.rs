//! The decisions of a migration: what to do about each declared column,
//! given what the live store reports, when a stored value has to be put
//! back to its default, and when a rename is carried out.
//!
//! A migration only ever adds a column, puts a value back to its default,
//! or copies a column that was renamed. It never removes one: the store's
//! format cannot drop a column, so the old column of a rename stays.
//!
//! The tables are seen to in the order of the layout. Within a table the
//! missing columns are added first, then the values that no longer fit are
//! put back. The renames come last, after all tables. Type names are
//! compared without regard to the case of ASCII letters.

use vstd::prelude::*;
use crate::database::backend::{RawValue, RawValueSpec};
use crate::database::sql_schema::{
    Column, ColumnSpec, ColumnType, Rename, RenameSpec, Table, TableSpec, columns_view,
    tables_view,
};
use crate::database::statements::{
    add_column_sql, add_column_text, copy_column_sql, copy_column_text, reset_sql, reset_text,
};
use crate::literal::{
    bool_token, decimal_text, format_i64, i32_literal, is_real, is_real_literal, parse_bool,
    parse_i32,
};
use crate::text::{eq_ignore_ascii_case, same_ignoring_case, str_eq};

verus! {

/// A list of strings as contracts see it.
pub open spec fn strings_view(v: Seq<String>) -> Seq<Seq<char>> {
    v.map_values(|s: String| s@)
}

/// The columns of a live table as contracts see them: name, then the type
/// that the store has on record.
pub open spec fn pairs_view(v: Seq<(String, String)>) -> Seq<(Seq<char>, Seq<char>)> {
    v.map_values(|p: (String, String)| (p.0@, p.1@))
}

/// The rows of an answer as contracts see them.
pub open spec fn rows_view(rows: Seq<Option<(RawValue, RawValue)>>) -> Seq<
    Option<(RawValueSpec, RawValueSpec)>,
> {
    rows.map_values(
        |row: Option<(RawValue, RawValue)>|
            match row {
                Some(p) => Some((p.0@, p.1@)),
                None => None,
            },
    )
}

/// The two texts of a row, where the row could be read and both of its
/// cells hold text.
pub open spec fn row_texts(row: Option<(RawValueSpec, RawValueSpec)>) -> Option<
    (Seq<char>, Seq<char>),
> {
    match row {
        Some((RawValueSpec::Text(a), RawValueSpec::Text(b))) => Some((a, b)),
        _ => None,
    }
}

/// What the store yielded, without the rows that could not be read as two
/// texts.
pub open spec fn readable(rows: Seq<Option<(RawValueSpec, RawValueSpec)>>) -> Seq<
    (Seq<char>, Seq<char>),
> {
    rows.filter_map(|row: Option<(RawValueSpec, RawValueSpec)>| row_texts(row))
}

/// Keeps the rows that could be read as two texts, in their order.
pub fn readable_rows(rows: &Vec<Option<(RawValue, RawValue)>>) -> (r: Vec<(String, String)>)
    ensures
        pairs_view(r@) == readable(rows_view(rows@)),
{
    let ghost f = |row: Option<(RawValueSpec, RawValueSpec)>| row_texts(row);
    let ghost view = rows_view(rows@);
    let mut out: Vec<(String, String)> = Vec::new();
    let mut i: usize = 0;
    assert(view.take(0).filter_map(f) =~= Seq::empty());
    while i < rows.len()
        invariant
            i <= rows.len(),
            view == rows_view(rows@),
            f == |row: Option<(RawValueSpec, RawValueSpec)>| row_texts(row),
            pairs_view(out@) == view.take(i as int).filter_map(f),
        decreases rows.len() - i,
    {
        proof {
            view.lemma_filter_map_take_succ(f, i as int);
        }
        match &rows[i] {
            Some((RawValue::Text(a), RawValue::Text(b))) => {
                let ghost before = out@;
                let name = a.clone();
                let declared = b.clone();
                out.push((name, declared));
                assert(pairs_view(out@) =~= pairs_view(before).push((a@, b@)));
            },
            _ => {},
        }
        i += 1;
    }
    assert(view.take(rows.len() as int) =~= view);
    out
}

/// The first component of each pair.
pub open spec fn names_of(live: Seq<(Seq<char>, Seq<char>)>) -> Seq<Seq<char>> {
    live.map_values(|p: (Seq<char>, Seq<char>)| p.0)
}

/// No name occurs twice among the live columns.
pub open spec fn names_distinct(live: Seq<(Seq<char>, Seq<char>)>) -> bool {
    forall|i: int, j: int|
        0 <= i < j < live.len() ==> (#[trigger] live[i]).0 != (#[trigger] live[j]).0
}

/// Whether no name occurs twice among the live columns. A store that
/// reports one twice is in no state that a migration can work on.
pub fn has_distinct_names(live: &Vec<(String, String)>) -> (r: bool)
    ensures
        r == names_distinct(pairs_view(live@)),
{
    let ghost view = pairs_view(live@);
    let mut j: usize = 0;
    while j < live.len()
        invariant
            j <= live.len(),
            view == pairs_view(live@),
            forall|a: int, b: int| 0 <= a < b < j ==> (#[trigger] view[a]).0 != (#[trigger] view[b]).0,
        decreases live.len() - j,
    {
        let mut i: usize = 0;
        while i < j
            invariant
                i <= j < live.len(),
                view == pairs_view(live@),
                forall|a: int| 0 <= a < i ==> (#[trigger] view[a]).0 != view[j as int].0,
            decreases j - i,
        {
            if str_eq(live[i].0.as_str(), live[j].0.as_str()) {
                assert(view[i as int].0 == view[j as int].0);
                return false;
            }
            i += 1;
        }
        j += 1;
    }
    true
}

/// Refuses a report of live columns in which a name occurs twice.
pub fn check_columns(live: &Vec<(String, String)>) -> (r: Result<
    (),
    crate::database::sql::StoreError,
>)
    ensures
        match r {
            Ok(_) => names_distinct(pairs_view(live@)),
            Err(e) => e == crate::database::sql::StoreError::SchemaIntegrity && !names_distinct(
                pairs_view(live@),
            ),
        },
{
    if has_distinct_names(live) {
        Ok(())
    } else {
        Err(crate::database::sql::StoreError::SchemaIntegrity)
    }
}

/// The type that the store has on record for the first live column named
/// `name`.
pub open spec fn live_type(live: Seq<(Seq<char>, Seq<char>)>, name: Seq<char>) -> Option<
    Seq<char>,
>
    decreases live.len(),
{
    if live.len() == 0 {
        None
    } else if live[0].0 == name {
        Some(live[0].1)
    } else {
        live_type(live.drop_first(), name)
    }
}

/// The store's type name `on_record` stands for the declared type `t`.
/// Type names are compared without regard to the case of ASCII letters.
pub open spec fn same_type(on_record: Seq<char>, t: ColumnType) -> bool {
    same_ignoring_case(on_record, t.spec_sql_name())
}

/// What a migration does about a declared column.
#[derive(Clone, Copy, Debug, PartialEq, Eq, Structural)]
pub enum ColumnAction {
    /// The live table lacks the column: add it, with its default.
    Add,
    /// The live column has another type on record: look at the stored value.
    Inspect,
    /// The live column is as declared: nothing to do.
    Keep,
}

/// What a migration does about the declared column `c`, given the columns
/// that the live table has.
pub open spec fn column_action(c: ColumnSpec, live: Seq<(Seq<char>, Seq<char>)>) -> ColumnAction {
    match live_type(live, c.name) {
        None => ColumnAction::Add,
        Some(on_record) => if same_type(on_record, c.data_type) {
            ColumnAction::Keep
        } else {
            ColumnAction::Inspect
        },
    }
}

/// Decides what a migration does about the declared column `c`.
pub fn decide_column(c: &Column, live: &Vec<(String, String)>) -> (r: ColumnAction)
    ensures
        r == column_action(c@, pairs_view(live@)),
{
    let ghost view = pairs_view(live@);
    let mut i: usize = 0;
    assert(view.skip(0) =~= view);
    while i < live.len()
        invariant
            i <= live.len(),
            view == pairs_view(live@),
            live_type(view, c@.name) == live_type(view.skip(i as int), c@.name),
        decreases live.len() - i,
    {
        proof {
            assert(view.skip(i as int)[0] == view[i as int]);
            assert(view.skip(i as int).drop_first() =~= view.skip(i + 1));
        }
        if str_eq(live[i].0.as_str(), c.name) {
            return if eq_ignore_ascii_case(live[i].1.as_str(), c.data_type.sql_name()) {
                ColumnAction::Keep
            } else {
                ColumnAction::Inspect
            };
        }
        i += 1;
    }
    ColumnAction::Add
}

/// A value given as text is acceptable for a column of type `t`: an integer
/// column takes a 32-bit decimal integer, a real column a real-number
/// literal, a boolean column one of `0`, `1`, `true`, `false`, and a text
/// column anything.
pub open spec fn value_fits(t: ColumnType, s: Seq<char>) -> bool {
    match t {
        ColumnType::Integer => i32_literal(s) is Some,
        ColumnType::Real => is_real_literal(s),
        ColumnType::Boolean => bool_token(s) is Some,
        ColumnType::Text => true,
    }
}

/// Whether a value given as text is acceptable for a column of type `t`.
pub fn fits(t: ColumnType, s: &str) -> (r: bool)
    ensures
        r == value_fits(t, s@),
{
    match t {
        ColumnType::Integer => parse_i32(s).is_some(),
        ColumnType::Real => is_real(s),
        ColumnType::Boolean => parse_bool(s).is_some(),
        ColumnType::Text => true,
    }
}

/// A stored cell as text: text as it is, a real number as the text that
/// shows it, an integer in decimal. A blob and an empty cell have no text.
pub open spec fn stored_text(raw: RawValueSpec) -> Option<Seq<char>> {
    match raw {
        RawValueSpec::Text(s) => Some(s),
        RawValueSpec::Real(t) => Some(t),
        RawValueSpec::Integer(i) => Some(decimal_text(i)),
        RawValueSpec::Blob => None,
        RawValueSpec::Null => None,
    }
}

/// A stored cell as text.
pub fn text_of(raw: RawValue) -> (r: Option<String>)
    ensures
        match r {
            Some(s) => stored_text(raw@) == Some(s@),
            None => stored_text(raw@) is None,
        },
{
    match raw {
        RawValue::Text(s) => Some(s),
        RawValue::Real(t) => Some(t),
        RawValue::Integer(i) => Some(format_i64(i)),
        RawValue::Blob => None,
        RawValue::Null => None,
    }
}

/// A stored value has to be put back to the column's default: its text is
/// not acceptable for the column's declared type. A cell without text, and
/// one that could not be read, is left alone.
pub open spec fn repair_needed(t: ColumnType, stored: Option<Seq<char>>) -> bool {
    match stored {
        Some(s) => !value_fits(t, s),
        None => false,
    }
}

/// Whether a stored value has to be put back to the column's default.
pub fn needs_repair(t: ColumnType, stored: &Option<String>) -> (r: bool)
    ensures
        r == repair_needed(
            t,
            match *stored {
                Some(s) => Some(s@),
                None => None,
            },
        ),
{
    match stored {
        Some(s) => !fits(t, s.as_str()),
        None => false,
    }
}

/// The addition that a migration hands to the store for the declared
/// column `c` of `table`: one statement that adds the column, with its own
/// default, where the live table lacks it.
pub open spec fn column_addition(
    table: Seq<char>,
    c: ColumnSpec,
    live: Seq<(Seq<char>, Seq<char>)>,
) -> Seq<Seq<char>> {
    match column_action(c, live) {
        ColumnAction::Add => seq![add_column_sql(table, c)],
        _ => Seq::empty(),
    }
}

/// The repair that a migration hands to the store for the declared column
/// `c` of `table`: one statement that puts its value back to the default,
/// where the type has changed and `stored`, the text read from the store,
/// no longer fits.
pub open spec fn column_repair(
    table: Seq<char>,
    c: ColumnSpec,
    live: Seq<(Seq<char>, Seq<char>)>,
    stored: Option<Seq<char>>,
) -> Seq<Seq<char>> {
    match column_action(c, live) {
        ColumnAction::Inspect => if repair_needed(c.data_type, stored) {
            seq![reset_sql(table, c)]
        } else {
            Seq::empty()
        },
        _ => Seq::empty(),
    }
}

/// The additions for the first `n` declared columns of `table`, in their
/// order.
pub open spec fn additions(table: TableSpec, live: Seq<(Seq<char>, Seq<char>)>, n: int) -> Seq<
    Seq<char>,
>
    decreases n,
{
    if n <= 0 {
        Seq::empty()
    } else {
        additions(table, live, n - 1) + column_addition(table.name, table.columns[n - 1], live)
    }
}

/// The repairs for the first `n` declared columns of `table`, in their
/// order. `stored` holds, for each column, the text read from the store
/// where the column was inspected.
pub open spec fn repairs(
    table: TableSpec,
    live: Seq<(Seq<char>, Seq<char>)>,
    stored: Seq<Option<Seq<char>>>,
    n: int,
) -> Seq<Seq<char>>
    decreases n,
{
    if n <= 0 {
        Seq::empty()
    } else {
        repairs(table, live, stored, n - 1) + column_repair(
            table.name,
            table.columns[n - 1],
            live,
            stored[n - 1],
        )
    }
}

/// The statements that a migration hands to the store for `table`: first
/// the additions for all of its columns, then the repairs.
pub open spec fn table_statements(
    table: TableSpec,
    live: Seq<(Seq<char>, Seq<char>)>,
    stored: Seq<Option<Seq<char>>>,
) -> Seq<Seq<char>> {
    additions(table, live, table.columns.len() as int) + repairs(
        table,
        live,
        stored,
        table.columns.len() as int,
    )
}

/// What was read from the store, as contracts see it.
pub open spec fn stored_view(stored: Seq<Option<String>>) -> Seq<Option<Seq<char>>> {
    stored.map_values(
        |s: Option<String>|
            match s {
                Some(t) => Some(t@),
                None => None,
            },
    )
}

/// The additions for `table`, given the columns that the live table has.
pub fn plan_additions(table: &Table, live: &Vec<(String, String)>) -> (r: Vec<String>)
    ensures
        strings_view(r@) == additions(table@, pairs_view(live@), table@.columns.len() as int),
{
    let ghost shape = table@;
    let ghost reported = pairs_view(live@);
    let mut out: Vec<String> = Vec::new();
    let mut j: usize = 0;
    assert(strings_view(out@) =~= additions(shape, reported, 0));
    while j < table.columns.len()
        invariant
            j <= table.columns.len(),
            shape == table@,
            reported == pairs_view(live@),
            strings_view(out@) == additions(shape, reported, j as int),
        decreases table.columns.len() - j,
    {
        let column = &table.columns[j];
        assert(shape.columns[j as int] == column@);
        let ghost before = out@;
        match decide_column(column, live) {
            ColumnAction::Add => {
                out.push(add_column_text(table.name, column));
                assert(strings_view(out@) =~= strings_view(before) + seq![
                    add_column_sql(shape.name, column@),
                ]);
            },
            _ => {
                assert(strings_view(out@) =~= strings_view(before) + Seq::<Seq<char>>::empty());
            },
        }
        j += 1;
    }
    out
}

/// Whether the declared column `c` is to be inspected: the live table has
/// it under another type.
pub fn is_inspected(c: &Column, live: &Vec<(String, String)>) -> (r: bool)
    ensures
        r == (column_action(c@, pairs_view(live@)) == ColumnAction::Inspect),
{
    match decide_column(c, live) {
        ColumnAction::Inspect => true,
        _ => false,
    }
}

/// The repairs for `table`, given the columns that the live table has and,
/// for each declared column, the text read from the store; what stands
/// there for a column that is not inspected does not matter.
pub fn plan_repairs(
    table: &Table,
    live: &Vec<(String, String)>,
    stored: &Vec<Option<String>>,
) -> (r: Vec<String>)
    requires
        stored@.len() == table@.columns.len(),
    ensures
        strings_view(r@) == repairs(
            table@,
            pairs_view(live@),
            stored_view(stored@),
            table@.columns.len() as int,
        ),
{
    let ghost shape = table@;
    let ghost reported = pairs_view(live@);
    let ghost seen = stored_view(stored@);
    let mut out: Vec<String> = Vec::new();
    let mut j: usize = 0;
    assert(strings_view(out@) =~= repairs(shape, reported, seen, 0));
    while j < table.columns.len()
        invariant
            j <= table.columns.len(),
            stored@.len() == table.columns.len(),
            shape == table@,
            reported == pairs_view(live@),
            seen == stored_view(stored@),
            strings_view(out@) == repairs(shape, reported, seen, j as int),
        decreases table.columns.len() - j,
    {
        let column = &table.columns[j];
        assert(shape.columns[j as int] == column@);
        let ghost before = out@;
        if is_inspected(column, live) && needs_repair(column.data_type, &stored[j]) {
            out.push(reset_text(table.name, column));
            assert(strings_view(out@) =~= strings_view(before) + seq![
                reset_sql(shape.name, column@),
            ]);
        } else {
            assert(strings_view(out@) =~= strings_view(before) + Seq::<Seq<char>>::empty());
        }
        j += 1;
    }
    out
}

/// The statements for `table`, given the columns that the live table has
/// and what was read from the store: the additions, then the repairs.
pub fn plan_table(table: &Table, live: &Vec<(String, String)>, stored: &Vec<Option<String>>) -> (r:
    Vec<String>)
    requires
        stored@.len() == table@.columns.len(),
    ensures
        strings_view(r@) == table_statements(table@, pairs_view(live@), stored_view(stored@)),
{
    let mut out = plan_additions(table, live);
    let mut rest = plan_repairs(table, live, stored);
    let ghost first = out@;
    out.append(&mut rest);
    assert(strings_view(out@) =~= strings_view(first) + repairs(
        table@,
        pairs_view(live@),
        stored_view(stored@),
        table@.columns.len() as int,
    ));
    out
}

/// `part` stands in `whole` as one unbroken run.
pub open spec fn has_run<A>(whole: Seq<A>, part: Seq<A>) -> bool {
    exists|at: int|
        0 <= at && at + part.len() <= whole.len() && #[trigger] whole.subrange(
            at,
            at + part.len(),
        ) == part
}

/// A run of a part of a sequence is a run of the sequence, whatever stands
/// before and after the part.
pub proof fn lemma_run_within<A>(before: Seq<A>, middle: Seq<A>, after: Seq<A>, part: Seq<A>)
    requires
        has_run(middle, part),
    ensures
        has_run(before + middle + after, part),
{
    let at = choose|at: int|
        0 <= at && at + part.len() <= middle.len() && #[trigger] middle.subrange(
            at,
            at + part.len(),
        ) == part;
    let whole = before + middle + after;
    let shifted = before.len() + at;
    assert(whole.subrange(shifted, shifted + part.len()) =~= part);
}

/// What is added for a declared column is part of the additions for its
/// table.
pub proof fn lemma_addition_within(
    table: TableSpec,
    live: Seq<(Seq<char>, Seq<char>)>,
    c: int,
    n: int,
)
    requires
        0 <= c < n,
    ensures
        has_run(additions(table, live, n), column_addition(table.name, table.columns[c], live)),
    decreases n,
{
    let part = column_addition(table.name, table.columns[c], live);
    let prefix = additions(table, live, n - 1);
    let last = column_addition(table.name, table.columns[n - 1], live);
    if c == n - 1 {
        let at = 0int;
        assert(part.subrange(at, at + part.len()) =~= part);
        lemma_run_within(prefix, part, Seq::empty(), part);
        assert(prefix + part + Seq::<Seq<char>>::empty() =~= prefix + part);
    } else {
        lemma_addition_within(table, live, c, n - 1);
        lemma_run_within(Seq::empty(), prefix, last, part);
        assert(Seq::<Seq<char>>::empty() + prefix + last =~= prefix + last);
    }
}

/// What is repaired for a declared column is part of the repairs for its
/// table.
pub proof fn lemma_repair_within(
    table: TableSpec,
    live: Seq<(Seq<char>, Seq<char>)>,
    stored: Seq<Option<Seq<char>>>,
    c: int,
    n: int,
)
    requires
        0 <= c < n,
    ensures
        has_run(
            repairs(table, live, stored, n),
            column_repair(table.name, table.columns[c], live, stored[c]),
        ),
    decreases n,
{
    let part = column_repair(table.name, table.columns[c], live, stored[c]);
    let prefix = repairs(table, live, stored, n - 1);
    let last = column_repair(table.name, table.columns[n - 1], live, stored[n - 1]);
    if c == n - 1 {
        let at = 0int;
        assert(part.subrange(at, at + part.len()) =~= part);
        lemma_run_within(prefix, part, Seq::empty(), part);
        assert(prefix + part + Seq::<Seq<char>>::empty() =~= prefix + part);
    } else {
        lemma_repair_within(table, live, stored, c, n - 1);
        lemma_run_within(Seq::empty(), prefix, last, part);
        assert(Seq::<Seq<char>>::empty() + prefix + last =~= prefix + last);
    }
}

/// What is issued for a declared column, its addition and its repair, is
/// part of what is issued for its table.
pub proof fn lemma_column_within_table(
    table: TableSpec,
    live: Seq<(Seq<char>, Seq<char>)>,
    stored: Seq<Option<Seq<char>>>,
    c: int,
)
    requires
        0 <= c < table.columns.len(),
    ensures
        has_run(
            table_statements(table, live, stored),
            column_addition(table.name, table.columns[c], live),
        ),
        has_run(
            table_statements(table, live, stored),
            column_repair(table.name, table.columns[c], live, stored[c]),
        ),
{
    let n = table.columns.len() as int;
    let first = additions(table, live, n);
    let second = repairs(table, live, stored, n);
    lemma_addition_within(table, live, c, n);
    lemma_run_within(
        Seq::empty(),
        first,
        second,
        column_addition(table.name, table.columns[c], live),
    );
    lemma_repair_within(table, live, stored, c, n);
    lemma_run_within(
        first,
        second,
        Seq::empty(),
        column_repair(table.name, table.columns[c], live, stored[c]),
    );
    assert(Seq::<Seq<char>>::empty() + first + second =~= first + second);
    assert(first + second + Seq::<Seq<char>>::empty() =~= first + second);
}

/// A column is added exactly where no live column has its name.
pub proof fn lemma_live_type_none(live: Seq<(Seq<char>, Seq<char>)>, name: Seq<char>)
    ensures
        live_type(live, name) is None <==> !names_of(live).contains(name),
    decreases live.len(),
{
    let names = names_of(live);
    if live.len() == 0 {
    } else if live[0].0 == name {
        assert(names[0] == name);
    } else {
        lemma_live_type_none(live.drop_first(), name);
        let rest = names_of(live.drop_first());
        if names.contains(name) {
            let i = choose|i: int| 0 <= i < names.len() && names[i] == name;
            assert(rest[i - 1] == name);
        }
        if rest.contains(name) {
            let i = choose|i: int| 0 <= i < rest.len() && rest[i] == name;
            assert(names[i + 1] == name);
        }
    }
}

/// Where no name occurs twice among the live columns, the type on record
/// for a name is that of the one column of that name.
pub proof fn lemma_live_type_of_member(live: Seq<(Seq<char>, Seq<char>)>, i: int)
    requires
        names_distinct(live),
        0 <= i < live.len(),
    ensures
        live_type(live, live[i].0) == Some(live[i].1),
    decreases live.len(),
{
    if i > 0 {
        assert(live[0].0 != live[i].0);
        let rest = live.drop_first();
        assert forall|a: int, b: int| 0 <= a < b < rest.len() implies (#[trigger] rest[a]).0 != (
        #[trigger] rest[b]).0 by {
            assert(rest[a] == live[a + 1]);
            assert(rest[b] == live[b + 1]);
        }
        lemma_live_type_of_member(rest, i - 1);
    }
}

/// Migration adds and never drops. For a declared column that the live
/// table lacks, the one statement issued adds that column with its own
/// default. For a column that the live table has, nothing is issued unless
/// its type has changed and the stored text no longer fits, and then the
/// one statement issued puts that column back to its default. No other
/// statement is ever issued for a column.
pub proof fn lemma_migration_adds_never_drops(
    table: Seq<char>,
    c: ColumnSpec,
    live: Seq<(Seq<char>, Seq<char>)>,
    stored: Option<Seq<char>>,
)
    ensures
        !names_of(live).contains(c.name) ==> column_addition(table, c, live) == seq![
            add_column_sql(table, c),
        ] && column_repair(table, c, live, stored) == Seq::<Seq<char>>::empty(),
        names_of(live).contains(c.name) ==> column_addition(table, c, live) == Seq::<
            Seq<char>,
        >::empty(),
        column_repair(table, c, live, stored) == Seq::<Seq<char>>::empty() || (column_repair(
            table,
            c,
            live,
            stored,
        ) == seq![reset_sql(table, c)] && repair_needed(c.data_type, stored)),
        !repair_needed(c.data_type, stored) ==> column_repair(table, c, live, stored) == Seq::<
            Seq<char>,
        >::empty(),
{
    lemma_live_type_none(live, c.name);
}

/// A live column that is as declared is left alone, whatever it holds.
pub proof fn lemma_unchanged_column_is_kept(
    table: Seq<char>,
    c: ColumnSpec,
    live: Seq<(Seq<char>, Seq<char>)>,
    stored: Option<Seq<char>>,
    i: int,
)
    requires
        names_distinct(live),
        0 <= i < live.len(),
        live[i].0 == c.name,
        same_type(live[i].1, c.data_type),
    ensures
        column_addition(table, c, live) == Seq::<Seq<char>>::empty(),
        column_repair(table, c, live, stored) == Seq::<Seq<char>>::empty(),
{
    lemma_live_type_of_member(live, i);
}

/// A rename is carried out on a live table that still has the old column
/// and has not got the new one.
pub open spec fn rename_due(live: Seq<Seq<char>>, old_column: Seq<char>, new_column: Seq<char>) -> bool {
    live.contains(old_column) && !live.contains(new_column)
}

/// Whether `names` holds `name`.
pub fn holds_name(names: &Vec<(String, String)>, name: &str) -> (r: bool)
    ensures
        r == names_of(pairs_view(names@)).contains(name@),
{
    let ghost view = names_of(pairs_view(names@));
    let mut i: usize = 0;
    while i < names.len()
        invariant
            i <= names.len(),
            view == names_of(pairs_view(names@)),
            forall|k: int| 0 <= k < i ==> view[k] != name@,
        decreases names.len() - i,
    {
        if str_eq(names[i].0.as_str(), name) {
            assert(view[i as int] == name@);
            return true;
        }
        i += 1;
    }
    false
}

/// Whether the rename `r` is carried out on a live table with the columns
/// `live`.
pub fn rename_is_due(live: &Vec<(String, String)>, r: &Rename) -> (due: bool)
    ensures
        due == rename_due(names_of(pairs_view(live@)), r.old_column@, r.new_column@),
{
    holds_name(live, r.old_column) && !holds_name(live, r.new_column)
}

/// The first column of `columns` named `name`.
pub open spec fn first_column(columns: Seq<ColumnSpec>, name: Seq<char>) -> Option<ColumnSpec>
    decreases columns.len(),
{
    if columns.len() == 0 {
        None
    } else if columns[0].name == name {
        Some(columns[0])
    } else {
        first_column(columns.drop_first(), name)
    }
}

/// The first table of `schema` named `name`.
pub open spec fn first_table(schema: Seq<TableSpec>, name: Seq<char>) -> Option<TableSpec>
    decreases schema.len(),
{
    if schema.len() == 0 {
        None
    } else if schema[0].name == name {
        Some(schema[0])
    } else {
        first_table(schema.drop_first(), name)
    }
}

/// The declaration of the column that a rename creates: the column of the
/// new name in the first table of the renamed table's name.
pub open spec fn rename_target(
    schema: Seq<TableSpec>,
    table: Seq<char>,
    new_column: Seq<char>,
) -> Option<ColumnSpec> {
    match first_table(schema, table) {
        Some(t) => first_column(t.columns, new_column),
        None => None,
    }
}

/// Finds the declaration of the column that the rename `r` creates.
pub fn find_rename_target(schema: &Vec<Table>, r: &Rename) -> (target: Option<Column>)
    ensures
        match target {
            Some(c) => rename_target(tables_view(schema@), r.table@, r.new_column@) == Some(c@),
            None => rename_target(tables_view(schema@), r.table@, r.new_column@) is None,
        },
{
    let ghost view = tables_view(schema@);
    let mut i: usize = 0;
    assert(view.skip(0) =~= view);
    while i < schema.len()
        invariant
            i <= schema.len(),
            view == tables_view(schema@),
            first_table(view, r.table@) == first_table(view.skip(i as int), r.table@),
        decreases schema.len() - i,
    {
        proof {
            assert(view.skip(i as int)[0] == view[i as int]);
            assert(view.skip(i as int).drop_first() =~= view.skip(i + 1));
        }
        if str_eq(schema[i].name, r.table) {
            let columns = &schema[i].columns;
            let ghost cols = columns_view(columns@);
            assert(first_table(view, r.table@) == Some(view[i as int]));
            assert(view[i as int].columns == cols);
            let mut j: usize = 0;
            assert(cols.skip(0) =~= cols);
            while j < columns.len()
                invariant
                    j <= columns.len(),
                    cols == columns_view(columns@),
                    view == tables_view(schema@),
                    first_table(view, r.table@) == Some(view[i as int]),
                    view[i as int].columns == cols,
                    first_column(cols, r.new_column@) == first_column(
                        cols.skip(j as int),
                        r.new_column@,
                    ),
                decreases columns.len() - j,
            {
                proof {
                    assert(cols.skip(j as int)[0] == cols[j as int]);
                    assert(cols.skip(j as int).drop_first() =~= cols.skip(j + 1));
                }
                if str_eq(columns[j].name, r.new_column) {
                    return Some(columns[j]);
                }
                j += 1;
            }
            return None;
        }
        i += 1;
    }
    None
}

/// The statements that a migration hands to the store for one rename in
/// `table`: where the rename is due and the new column is declared, one
/// that adds the new column as declared and one that copies the old
/// column's value into it; none otherwise.
pub open spec fn rename_statements(
    schema: Seq<TableSpec>,
    table: Seq<char>,
    old_column: Seq<char>,
    new_column: Seq<char>,
    live: Seq<Seq<char>>,
) -> Seq<Seq<char>> {
    if rename_due(live, old_column, new_column) {
        match rename_target(schema, table, new_column) {
            Some(target) => seq![
                add_column_sql(table, target),
                copy_column_sql(table, new_column, old_column),
            ],
            None => Seq::empty(),
        }
    } else {
        Seq::empty()
    }
}

/// The statements that a migration hands to the store for the rename `r`,
/// given the columns that the live table has.
pub fn plan_rename(schema: &Vec<Table>, r: &Rename, live: &Vec<(String, String)>) -> (out: Vec<
    String,
>)
    ensures
        strings_view(out@) == rename_statements(
            tables_view(schema@),
            r.table@,
            r.old_column@,
            r.new_column@,
            names_of(pairs_view(live@)),
        ),
{
    let mut out: Vec<String> = Vec::new();
    assert(strings_view(out@) =~= Seq::<Seq<char>>::empty());
    if rename_is_due(live, r) {
        match find_rename_target(schema, r) {
            Some(target) => {
                out.push(add_column_text(r.table, &target));
                out.push(copy_column_text(r.table, r.new_column, r.old_column));
                assert(strings_view(out@) =~= seq![
                    add_column_sql(r.table@, target@),
                    copy_column_sql(r.table@, r.new_column@, r.old_column@),
                ]);
            },
            None => {},
        }
    }
    out
}

/// How a store is brought up.
#[derive(Clone, Copy, Debug, PartialEq, Eq, Structural)]
pub enum Startup {
    /// There was no store: create every table and record the version.
    Initialize,
    /// The store is older than the declared layout: migrate it, then
    /// record the version.
    Migrate,
    /// The store is at the declared version or beyond: leave it as it is.
    UpToDate,
}

/// How a store is brought up, given whether it existed, the version it has
/// on record and the declared version.
pub open spec fn startup(existed: bool, persisted: u32, declared: u32) -> Startup {
    if !existed {
        Startup::Initialize
    } else if declared > persisted {
        Startup::Migrate
    } else {
        Startup::UpToDate
    }
}

/// Decides how a store is brought up.
pub fn decide_startup(existed: bool, persisted: u32, declared: u32) -> (r: Startup)
    ensures
        r == startup(existed, persisted, declared),
{
    if !existed {
        Startup::Initialize
    } else if declared > persisted {
        Startup::Migrate
    } else {
        Startup::UpToDate
    }
}

/// The version on record once the store has been brought up.
pub open spec fn version_after(existed: bool, persisted: u32, declared: u32) -> u32 {
    match startup(existed, persisted, declared) {
        Startup::Initialize => declared,
        Startup::Migrate => declared,
        Startup::UpToDate => persisted,
    }
}

/// The version on record never goes down: after an existing store has
/// been brought up it is the larger of the version it had on record and
/// the declared one, and a new store is at the declared version.
pub proof fn lemma_version_never_decreases(existed: bool, persisted: u32, declared: u32)
    ensures
        existed ==> version_after(existed, persisted, declared) == (if persisted >= declared {
            persisted
        } else {
            declared
        }),
        !existed ==> version_after(existed, persisted, declared) == declared,
        existed ==> version_after(existed, persisted, declared) >= persisted,
        startup(existed, persisted, declared) == Startup::Migrate ==> persisted < declared,
{
}

/// The version that a store has on record, given what reading it yielded.
/// Anything but an integer that fits counts as version 0.
pub open spec fn recorded_version(read: Option<RawValueSpec>) -> u32 {
    match read {
        Some(RawValueSpec::Integer(i)) => if 0 <= i <= u32::MAX { i as u32 } else { 0 },
        _ => 0,
    }
}

/// The version that a store has on record, given what reading it yielded.
pub fn version_of(read: &Option<RawValue>) -> (r: u32)
    ensures
        r == recorded_version(
            match *read {
                Some(raw) => Some(raw@),
                None => None,
            },
        ),
{
    match read {
        Some(RawValue::Integer(i)) => if 0 <= *i && *i <= 4294967295 { *i as u32 } else { 0 },
        _ => 0,
    }
}

} // verus!
