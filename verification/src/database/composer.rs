//! Putting the layout of a run together, and finding the table that owns
//! a setting.
//!
//! The layout of a run is the application's own tables followed by what
//! each controller contributes, in the order in which the controllers are
//! given. Nothing is checked or removed while composing. When more than one
//! table declares a setting of the same name, the first one in that order
//! owns it: a table of the application masks a controller's table.

use vstd::prelude::*;
use crate::database::sql_schema::{
    Column, ColumnSpec, ColumnType, Table, TableSpec, tables_view,
};
use crate::text::str_eq;

verus! {

/// What a list of contributions holds, as contracts see it.
pub open spec fn fragments_view(fragments: Seq<Vec<Table>>) -> Seq<Seq<TableSpec>> {
    fragments.map_values(|f: Vec<Table>| tables_view(f@))
}

/// The layout of a run: the application's tables, then every contribution
/// in order.
pub open spec fn composed(base: Seq<TableSpec>, fragments: Seq<Seq<TableSpec>>) -> Seq<
    TableSpec,
> {
    base + fragments.flatten()
}

/// Puts the layout of a run together.
pub fn compose(static_schema: &Vec<Table>, fragments: &Vec<Vec<Table>>) -> (r: Vec<Table>)
    ensures
        tables_view(r@) == composed(tables_view(static_schema@), fragments_view(fragments@)),
{
    let mut out: Vec<Table> = Vec::new();
    let mut i: usize = 0;
    while i < static_schema.len()
        invariant
            i <= static_schema.len(),
            tables_view(out@) == tables_view(static_schema@).take(i as int),
        decreases static_schema.len() - i,
    {
        let table = static_schema[i].clone();
        assert(table@ == static_schema@[i as int]@);
        let ghost before = out@;
        out.push(table);
        assert(tables_view(out@) =~= tables_view(before).push(table@));
        assert(tables_view(out@) =~= tables_view(static_schema@).take(i + 1));
        i += 1;
    }
    assert(tables_view(static_schema@).take(static_schema.len() as int) =~= tables_view(
        static_schema@,
    ));
    let ghost base = tables_view(static_schema@);
    let ghost all = fragments_view(fragments@);
    let mut k: usize = 0;
    assert(all.take(0).flatten() =~= Seq::<TableSpec>::empty());
    assert(base + Seq::<TableSpec>::empty() =~= base);
    while k < fragments.len()
        invariant
            k <= fragments.len(),
            base == tables_view(static_schema@),
            all == fragments_view(fragments@),
            tables_view(out@) == base + all.take(k as int).flatten(),
        decreases fragments.len() - k,
    {
        let fragment = &fragments[k];
        let ghost done = all.take(k as int).flatten();
        let mut j: usize = 0;
        assert(tables_view(fragment@).take(0) =~= Seq::<TableSpec>::empty());
        assert(base + done + Seq::<TableSpec>::empty() =~= base + done);
        while j < fragment.len()
            invariant
                j <= fragment.len(),
                tables_view(out@) == base + done + tables_view(fragment@).take(j as int),
            decreases fragment.len() - j,
        {
            let table = fragment[j].clone();
            let ghost before = out@;
            out.push(table);
            assert(tables_view(out@) =~= tables_view(before).push(table@));
            assert(tables_view(out@) =~= base + done + tables_view(fragment@).take(j + 1));
            j += 1;
        }
        proof {
            assert(tables_view(fragment@).take(fragment.len() as int) =~= tables_view(fragment@));
            assert(all.take(k + 1) =~= all.take(k as int).push(tables_view(fragment@)));
            all.take(k as int).lemma_flatten_push(tables_view(fragment@));
            assert(base + done + tables_view(fragment@) =~= base + (done + tables_view(
                fragment@,
            )));
        }
        k += 1;
    }
    assert(all.take(fragments.len() as int) =~= all);
    out
}

/// `t` declares a setting named `key`.
pub open spec fn declares(t: TableSpec, key: Seq<char>) -> bool {
    exists|j: int| 0 <= j < t.columns.len() && (#[trigger] t.columns[j]).name == key
}

/// Some table of `schema` declares a setting named `key`.
pub open spec fn knows(schema: Seq<TableSpec>, key: Seq<char>) -> bool {
    exists|i: int| 0 <= i < schema.len() && declares(#[trigger] schema[i], key)
}

/// Column `c` of table `t` is where `key` is kept: the first table in
/// `schema` that declares `key`, and in it the first column of that name.
pub open spec fn is_owner(schema: Seq<TableSpec>, key: Seq<char>, t: int, c: int) -> bool {
    &&& 0 <= t < schema.len()
    &&& 0 <= c < schema[t].columns.len()
    &&& schema[t].columns[c].name == key
    &&& forall|j: int| 0 <= j < c ==> (#[trigger] schema[t].columns[j]).name != key
    &&& forall|i: int| 0 <= i < t ==> !declares(#[trigger] schema[i], key)
}

/// The position at which `key` is kept, where `schema` knows `key`.
pub open spec fn owner(schema: Seq<TableSpec>, key: Seq<char>) -> (int, int) {
    choose|p: (int, int)| is_owner(schema, key, p.0, p.1)
}

/// The table in which `key` is kept, where `schema` knows `key`.
pub open spec fn owning_table(schema: Seq<TableSpec>, key: Seq<char>) -> TableSpec {
    schema[owner(schema, key).0]
}

/// The column in which `key` is kept, where `schema` knows `key`.
pub open spec fn owning_column(schema: Seq<TableSpec>, key: Seq<char>) -> ColumnSpec {
    schema[owner(schema, key).0].columns[owner(schema, key).1]
}

/// A setting is kept in one place only.
pub proof fn lemma_owner_unique(schema: Seq<TableSpec>, key: Seq<char>, t: int, c: int)
    requires
        is_owner(schema, key, t, c),
    ensures
        owner(schema, key) == (t, c),
        knows(schema, key),
{
    let p = owner(schema, key);
    assert(is_owner(schema, key, (t, c).0, (t, c).1));
    assert(declares(schema[t], key));
    assert(is_owner(schema, key, p.0, p.1));
    assert(declares(schema[p.0], key));
    if p.0 < t {
        assert(!declares(schema[p.0], key));
    }
    if t < p.0 {
        assert(!declares(schema[t], key));
    }
    if p.1 < c {
        assert(schema[t].columns[p.1].name != key);
    }
    if c < p.1 {
        assert(schema[t].columns[c].name != key);
    }
}

/// The first column of `columns` named `key`.
fn locate_column(columns: &Vec<Column>, key: &str) -> (r: Option<usize>)
    ensures
        match r {
            Some(c) => {
                &&& c < columns@.len()
                &&& columns@[c as int]@.name == key@
                &&& forall|j: int| 0 <= j < c ==> (#[trigger] columns@[j])@.name != key@
            },
            None => forall|j: int| 0 <= j < columns@.len() ==> (#[trigger] columns@[j])@.name != key@,
        },
{
    let mut j: usize = 0;
    while j < columns.len()
        invariant
            j <= columns.len(),
            forall|k: int| 0 <= k < j ==> (#[trigger] columns@[k])@.name != key@,
        decreases columns.len() - j,
    {
        if str_eq(columns[j].name, key) {
            return Some(j);
        }
        j += 1;
    }
    None
}

/// Where in `schema` the setting `key` is kept: the table's position and
/// the column's position in it.
pub fn locate(schema: &Vec<Table>, key: &str) -> (r: Option<(usize, usize)>)
    ensures
        match r {
            Some((t, c)) => is_owner(tables_view(schema@), key@, t as int, c as int),
            None => !knows(tables_view(schema@), key@),
        },
{
    let ghost view = tables_view(schema@);
    let mut i: usize = 0;
    while i < schema.len()
        invariant
            i <= schema.len(),
            view == tables_view(schema@),
            forall|k: int| 0 <= k < i ==> !declares(#[trigger] view[k], key@),
        decreases schema.len() - i,
    {
        let found = locate_column(&schema[i].columns, key);
        proof {
            assert(view[i as int] == schema@[i as int]@);
            assert forall|j: int| 0 <= j < view[i as int].columns.len() implies (
            #[trigger] view[i as int].columns[j]) == schema@[i as int].columns@[j]@ by {}
        }
        match found {
            Some(c) => {
                return Some((i, c));
            },
            None => {
                assert(!declares(view[i as int], key@));
            },
        }
        i += 1;
    }
    None
}

/// No two tables of `schema` share a name.
pub open spec fn table_names_distinct(schema: Seq<TableSpec>) -> bool {
    forall|i: int, j: int|
        0 <= i < j < schema.len() ==> (#[trigger] schema[i]).name != (#[trigger] schema[j]).name
}

/// Every column of `schema` has the type of the column that owns its name:
/// a name that is declared more than once is declared with one type.
pub open spec fn one_type_per_name(schema: Seq<TableSpec>) -> bool {
    forall|t: int, c: int|
        0 <= t < schema.len() && 0 <= c < schema[t].columns.len() ==> (
        #[trigger] schema[t].columns[c]).data_type == owning_column(
            schema,
            schema[t].columns[c].name,
        ).data_type
}

/// A layout is consistent when no two of its tables share a name and
/// every name of a setting goes with one type. Composing checks neither:
/// whoever declares tables keeps them so.
pub open spec fn consistent(schema: Seq<TableSpec>) -> bool {
    table_names_distinct(schema) && one_type_per_name(schema)
}

/// Whether the layout is consistent.
pub fn is_consistent(schema: &Vec<Table>) -> (r: bool)
    ensures
        r == consistent(tables_view(schema@)),
{
    let ghost view = tables_view(schema@);
    let mut j: usize = 0;
    while j < schema.len()
        invariant
            j <= schema.len(),
            view == tables_view(schema@),
            forall|a: int, b: int|
                0 <= a < b < j ==> (#[trigger] view[a]).name != (#[trigger] view[b]).name,
        decreases schema.len() - j,
    {
        let mut i: usize = 0;
        while i < j
            invariant
                i <= j < schema.len(),
                view == tables_view(schema@),
                forall|a: int| 0 <= a < i ==> (#[trigger] view[a]).name != view[j as int].name,
            decreases j - i,
        {
            if str_eq(schema[i].name, schema[j].name) {
                assert(view[i as int].name == view[j as int].name);
                return false;
            }
            i += 1;
        }
        j += 1;
    }
    let mut t: usize = 0;
    while t < schema.len()
        invariant
            t <= schema.len(),
            view == tables_view(schema@),
            table_names_distinct(view),
            forall|a: int, c: int|
                0 <= a < t && 0 <= c < view[a].columns.len() ==> (
                #[trigger] view[a].columns[c]).data_type == owning_column(
                    view,
                    view[a].columns[c].name,
                ).data_type,
        decreases schema.len() - t,
    {
        let columns = &schema[t].columns;
        let ghost declared = view[t as int].columns;
        assert forall|k: int| 0 <= k < declared.len() implies (#[trigger] declared[k])
            == columns@[k]@ by {}
        let mut c: usize = 0;
        while c < columns.len()
            invariant
                c <= columns.len(),
                t < schema.len(),
                view == tables_view(schema@),
                declared == view[t as int].columns,
                declared.len() == columns@.len(),
                forall|k: int| 0 <= k < declared.len() ==> (#[trigger] declared[k]) == columns@[k]@,
                forall|k: int|
                    0 <= k < c ==> (#[trigger] declared[k]).data_type == owning_column(
                        view,
                        declared[k].name,
                    ).data_type,
            decreases columns.len() - c,
        {
            let column = columns[c];
            assert(declared[c as int] == column@);
            match locate(schema, column.name) {
                Some((owner_table, owner_column)) => {
                    proof {
                        lemma_owner_unique(
                            view,
                            column.name@,
                            owner_table as int,
                            owner_column as int,
                        );
                    }
                    let owning = schema[owner_table].columns[owner_column];
                    assert(owning@ == owning_column(view, column.name@));
                    if owning.data_type != column.data_type {
                        assert(view[t as int].columns[c as int].data_type != owning_column(
                            view,
                            view[t as int].columns[c as int].name,
                        ).data_type);
                        return false;
                    }
                },
                None => {
                    assert(declares(view[t as int], column.name@));
                    return false;
                },
            }
            c += 1;
        }
        t += 1;
    }
    true
}

/// In a consistent layout the name of a setting fixes its type: whichever
/// table declares the name, the type is that of the column that owns it.
pub proof fn lemma_name_fixes_type(schema: Seq<TableSpec>, t: int, c: int)
    requires
        consistent(schema),
        0 <= t < schema.len(),
        0 <= c < schema[t].columns.len(),
    ensures
        knows(schema, schema[t].columns[c].name),
        schema[t].columns[c].data_type == owning_column(
            schema,
            schema[t].columns[c].name,
        ).data_type,
{
    assert(declares(schema[t], schema[t].columns[c].name));
}

/// Masking: a setting that the application's own tables declare is kept
/// there, whatever the controllers contribute under the same name.
pub proof fn lemma_static_masks_fragments(
    base: Seq<TableSpec>,
    fragments: Seq<Seq<TableSpec>>,
    key: Seq<char>,
)
    requires
        knows(base, key),
    ensures
        knows(composed(base, fragments), key),
        owner(composed(base, fragments), key) == owner(base, key),
        owner(base, key).0 < base.len(),
        owning_table(composed(base, fragments), key) == owning_table(base, key),
        owning_column(composed(base, fragments), key) == owning_column(base, key),
{
    let all = composed(base, fragments);
    lemma_knows_has_owner(base, key);
    let p = owner(base, key);
    assert forall|i: int| 0 <= i < base.len() implies #[trigger] all[i] == base[i] by {}
    assert(is_owner(all, key, p.0, p.1));
    lemma_owner_unique(all, key, p.0, p.1);
}

/// A setting that the layout knows is kept somewhere, in a column of a
/// table of the layout, and that column has the setting's name: a name
/// that reaches a statement is a declared one.
pub proof fn lemma_knows_has_owner(schema: Seq<TableSpec>, key: Seq<char>)
    requires
        knows(schema, key),
    ensures
        is_owner(schema, key, owner(schema, key).0, owner(schema, key).1),
        owning_column(schema, key).name == key,
        0 <= owner(schema, key).0 < schema.len(),
        owning_table(schema, key) == schema[owner(schema, key).0],
{
    let i = choose|i: int| 0 <= i < schema.len() && declares(#[trigger] schema[i], key);
    let t = first_declaring(schema, key, i);
    let j = choose|j: int| 0 <= j < schema[t].columns.len() && (#[trigger] schema[t].columns[j]).name == key;
    let c = first_named(schema[t].columns, key, j);
    assert(is_owner(schema, key, (t, c).0, (t, c).1));
}

/// The first table at or before `upto` that declares `key`.
proof fn first_declaring(schema: Seq<TableSpec>, key: Seq<char>, upto: int) -> (t: int)
    requires
        0 <= upto < schema.len(),
        declares(schema[upto], key),
    ensures
        0 <= t <= upto,
        declares(schema[t], key),
        forall|i: int| 0 <= i < t ==> !declares(#[trigger] schema[i], key),
    decreases upto,
{
    if exists|i: int| 0 <= i < upto && declares(#[trigger] schema[i], key) {
        let i = choose|i: int| 0 <= i < upto && declares(#[trigger] schema[i], key);
        first_declaring(schema, key, i)
    } else {
        upto
    }
}

/// The first column at or before `upto` that is named `key`.
proof fn first_named(columns: Seq<ColumnSpec>, key: Seq<char>, upto: int) -> (c: int)
    requires
        0 <= upto < columns.len(),
        columns[upto].name == key,
    ensures
        0 <= c <= upto,
        columns[c].name == key,
        forall|j: int| 0 <= j < c ==> (#[trigger] columns[j]).name != key,
    decreases upto,
{
    if exists|j: int| 0 <= j < upto && (#[trigger] columns[j]).name == key {
        let j = choose|j: int| 0 <= j < upto && (#[trigger] columns[j]).name == key;
        first_named(columns, key, j)
    } else {
        upto
    }
}

} // verus!
