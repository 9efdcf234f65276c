//! Finding the tables that a removed controller left behind.
//!
//! A table whose name ends in `_settings` was contributed by a controller.
//! When no table of the current layout has its name, it is an orphan and is
//! dropped. A table without that suffix is never dropped.

use vstd::prelude::*;
use crate::database::migration::strings_view;
use crate::database::sql_schema::{Table, TableSpec, tables_view};
use crate::database::statements::{drop_table_sql, drop_table_text};
use crate::text::{ends_with, has_suffix, str_eq};

verus! {

/// `name` marks a table as contributed by a controller.
pub open spec fn is_dynamic(name: Seq<char>) -> bool {
    has_suffix(name, "_settings"@)
}

/// Some table of `schema` is named `name`.
pub open spec fn has_table(schema: Seq<TableSpec>, name: Seq<char>) -> bool {
    exists|i: int| 0 <= i < schema.len() && (#[trigger] schema[i]).name == name
}

/// A live table named `name` is an orphan under `schema`.
pub open spec fn is_orphan(schema: Seq<TableSpec>, name: Seq<char>) -> bool {
    is_dynamic(name) && !has_table(schema, name)
}

/// The orphans among the live tables, in their order.
pub open spec fn orphans(schema: Seq<TableSpec>, live: Seq<Seq<char>>) -> Seq<Seq<char>> {
    live.filter(|name: Seq<char>| is_orphan(schema, name))
}

/// Whether some table of `schema` is named `name`.
pub fn schema_has_table(schema: &Vec<Table>, name: &str) -> (r: bool)
    ensures
        r == has_table(tables_view(schema@), name@),
{
    let ghost view = tables_view(schema@);
    let mut i: usize = 0;
    while i < schema.len()
        invariant
            i <= schema.len(),
            view == tables_view(schema@),
            forall|k: int| 0 <= k < i ==> (#[trigger] view[k]).name != name@,
        decreases schema.len() - i,
    {
        if str_eq(schema[i].name, name) {
            assert(view[i as int].name == name@);
            return true;
        }
        i += 1;
    }
    false
}

/// The orphans among the live tables, in their order.
pub fn orphan_tables(schema: &Vec<Table>, live: &Vec<String>) -> (r: Vec<String>)
    ensures
        strings_view(r@) == orphans(tables_view(schema@), strings_view(live@)),
{
    let ghost view = tables_view(schema@);
    let ghost names = strings_view(live@);
    let ghost pred = |name: Seq<char>| is_orphan(view, name);
    let mut out: Vec<String> = Vec::new();
    let mut i: usize = 0;
    proof {
        reveal(Seq::filter);
        assert(names.take(0).filter(pred) =~= Seq::<Seq<char>>::empty());
    }
    while i < live.len()
        invariant
            i <= live.len(),
            view == tables_view(schema@),
            names == strings_view(live@),
            pred == |name: Seq<char>| is_orphan(view, name),
            strings_view(out@) == names.take(i as int).filter(pred),
        decreases live.len() - i,
    {
        let name = live[i].as_str();
        proof {
            assert(names.take(i + 1) =~= names.take(i as int).push(names[i as int]));
            names.take(i as int).lemma_filter_push(names[i as int], pred);
        }
        if ends_with(name, "_settings") && !schema_has_table(schema, name) {
            let ghost before = out@;
            out.push(live[i].clone());
            assert(strings_view(out@) =~= strings_view(before).push(names[i as int]));
        }
        i += 1;
    }
    assert(names.take(live.len() as int) =~= names);
    out
}

/// The statements that a cleanup hands to the store: one drop for each
/// orphan among the live tables, in their order.
pub open spec fn cleanup_statements(schema: Seq<TableSpec>, live: Seq<Seq<char>>) -> Seq<
    Seq<char>,
> {
    orphans(schema, live).map_values(|name: Seq<char>| drop_table_sql(name))
}

/// The statements that a cleanup hands to the store.
pub fn plan_cleanup(schema: &Vec<Table>, live: &Vec<String>) -> (r: Vec<String>)
    ensures
        strings_view(r@) == cleanup_statements(tables_view(schema@), strings_view(live@)),
{
    let doomed = orphan_tables(schema, live);
    let ghost target = cleanup_statements(tables_view(schema@), strings_view(live@));
    let mut out: Vec<String> = Vec::new();
    let mut i: usize = 0;
    while i < doomed.len()
        invariant
            i <= doomed.len(),
            strings_view(doomed@) == orphans(tables_view(schema@), strings_view(live@)),
            target == cleanup_statements(tables_view(schema@), strings_view(live@)),
            strings_view(out@) == target.take(i as int),
        decreases doomed.len() - i,
    {
        let ghost before = out@;
        out.push(drop_table_text(doomed[i].as_str()));
        assert(strings_view(out@) =~= strings_view(before).push(
            drop_table_sql(doomed@[i as int]@),
        ));
        assert(strings_view(doomed@)[i as int] == doomed@[i as int]@);
        assert(strings_view(out@) =~= target.take(i + 1));
        i += 1;
    }
    assert(target.take(doomed.len() as int) =~= target);
    out
}

/// Orphan drop: a live table is dropped exactly when its name ends in
/// `_settings` and no table of the layout has that name. A table without
/// the suffix stays, and so does every table of the layout.
pub proof fn lemma_orphan_drop(schema: Seq<TableSpec>, live: Seq<Seq<char>>, name: Seq<char>)
    ensures
        orphans(schema, live).contains(name) <==> live.contains(name) && is_dynamic(name)
            && !has_table(schema, name),
        !is_dynamic(name) ==> !orphans(schema, live).contains(name),
        has_table(schema, name) ==> !orphans(schema, live).contains(name),
{
    let pred = |n: Seq<char>| is_orphan(schema, n);
    if orphans(schema, live).contains(name) {
        live.lemma_filter_contains_rev(pred, name);
        let i = choose|i: int| 0 <= i < live.filter(pred).len() && live.filter(pred)[i] == name;
        live.lemma_filter_pred(pred, i);
    }
    if live.contains(name) && is_orphan(schema, name) {
        let i = choose|i: int| 0 <= i < live.len() && live[i] == name;
        live.lemma_filter_contains(pred, i);
    }
}

/// Opening a store again at the version it is at changes no table of the
/// layout: nothing is created or migrated, and what the cleanup drops is
/// no table that the layout names.
pub proof fn lemma_reopening_keeps_declared_tables(
    schema: Seq<TableSpec>,
    live: Seq<Seq<char>>,
    version: u32,
    i: int,
)
    requires
        0 <= i < cleanup_statements(schema, live).len(),
    ensures
        crate::database::migration::startup(true, version, version)
            == crate::database::migration::Startup::UpToDate,
        cleanup_statements(schema, live)[i] == drop_table_sql(orphans(schema, live)[i]),
        !has_table(schema, orphans(schema, live)[i]),
{
    let name = orphans(schema, live)[i];
    assert(orphans(schema, live).contains(name));
    lemma_orphan_drop(schema, live, name);
}

} // verus!
