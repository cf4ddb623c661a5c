//! The mathematical model of a schema: tables in the order in which they were
//! first declared, each with its columns in the order in which they were
//! first declared, and the mapping from names to columns that this listing
//! stands for.

use vstd::prelude::*;
use crate::column::{column_diff_of, fix_statement_of, listing_text, ColumnView};

verus! {

/// A table of the model: its name and its columns, first declared first.
pub ghost struct TableView {
    pub name: Seq<char>,
    pub columns: Seq<ColumnView>,
}

/// The names of `columns`, in order.
pub open spec fn column_names(columns: Seq<ColumnView>) -> Seq<Seq<char>> {
    columns.map_values(|c: ColumnView| c.name)
}

/// The names of `tables`, in order.
pub open spec fn table_names(tables: Seq<TableView>) -> Seq<Seq<char>> {
    tables.map_values(|t: TableView| t.name)
}

/// A table is well formed when it has a column, no two of its columns share a
/// name, and each column names the table as its owner.
pub open spec fn table_wf(t: TableView) -> bool {
    &&& t.columns.len() > 0
    &&& column_names(t.columns).no_duplicates()
    &&& forall|j: int| 0 <= j < t.columns.len() ==> (#[trigger] t.columns[j]).table == t.name
}

/// A schema is well formed when no two tables share a name and every table
/// is well formed.
pub open spec fn schema_wf(tables: Seq<TableView>) -> bool {
    &&& table_names(tables).no_duplicates()
    &&& forall|i: int| 0 <= i < tables.len() ==> table_wf(#[trigger] tables[i])
}

/// The position of the column called `name`, if there is one.
pub open spec fn find_column(columns: Seq<ColumnView>, name: Seq<char>) -> Option<int> {
    column_names(columns).index_of_first(name)
}

/// The position of the table called `name`, if there is one.
pub open spec fn find_table(tables: Seq<TableView>, name: Seq<char>) -> Option<int> {
    table_names(tables).index_of_first(name)
}

/// Whether the schema has a table called `table`.
pub open spec fn has_table(tables: Seq<TableView>, table: Seq<char>) -> bool {
    find_table(tables, table) is Some
}

/// The column `name` of table `table`, if the schema has it.
pub open spec fn lookup(tables: Seq<TableView>, table: Seq<char>, name: Seq<char>) -> Option<
    ColumnView,
> {
    match find_table(tables, table) {
        Some(i) => match find_column(tables[i].columns, name) {
            Some(j) => Some(tables[i].columns[j]),
            None => None,
        },
        None => None,
    }
}

/// The mapping that the schema stands for: from the name of each table to
/// the mapping from the names of its columns to the columns.
pub open spec fn definitions(tables: Seq<TableView>) -> Map<Seq<char>, Map<Seq<char>, ColumnView>> {
    Map::new(
        |table: Seq<char>| has_table(tables, table),
        |table: Seq<char>|
            Map::new(
                |name: Seq<char>| lookup(tables, table, name) is Some,
                |name: Seq<char>| lookup(tables, table, name)->0,
            ),
    )
}

/// `columns` with `c` recorded: in the place of the column of the same name
/// where there is one, else at the end.
pub open spec fn put_column(columns: Seq<ColumnView>, c: ColumnView) -> Seq<ColumnView> {
    match find_column(columns, c.name) {
        Some(j) => columns.update(j, c),
        None => columns.push(c),
    }
}

/// The schema with `c` recorded under the table that it names: the table is
/// added at the end where the schema does not have it yet, and within the
/// table a column of the same name gives way to `c`.
pub open spec fn put(tables: Seq<TableView>, c: ColumnView) -> Seq<TableView> {
    match find_table(tables, c.table) {
        Some(i) => tables.update(
            i,
            TableView { name: tables[i].name, columns: put_column(tables[i].columns, c) },
        ),
        None => tables.push(TableView { name: c.table, columns: seq![c] }),
    }
}

/// Recording a column keeps a schema well formed.
pub proof fn lemma_put_wf(tables: Seq<TableView>, c: ColumnView)
    requires
        schema_wf(tables),
    ensures
        schema_wf(put(tables, c)),
{
    let after = put(tables, c);
    table_names(tables).index_of_first_ensures(c.table);
    match find_table(tables, c.table) {
        Some(i) => {
            let columns = tables[i].columns;
            column_names(columns).index_of_first_ensures(c.name);
            assert(table_names(after) =~= table_names(tables));
            let changed = put_column(columns, c);
            match find_column(columns, c.name) {
                Some(j) => {
                    assert(column_names(changed) =~= column_names(columns));
                },
                None => {
                    assert(column_names(changed) =~= column_names(columns).push(c.name));
                },
            }
            assert(table_wf(after[i]));
        },
        None => {
            assert(table_names(after) =~= table_names(tables).push(c.table));
            assert(column_names(seq![c]) =~= seq![c.name]);
            assert(table_wf(after[tables.len() as int]));
        },
    }
}

/// The line that lists a column under its table.
pub open spec fn column_line(c: ColumnView) -> Seq<char> {
    "\t"@ + listing_text(c) + "\n"@
}

/// The listing of a table: its name on a line, then a line for each column.
pub open spec fn table_listing(t: TableView) -> Seq<char> {
    t.name + "\n"@ + t.columns.flat_map(|c: ColumnView| column_line(c))
}

/// The listing of a schema: the listings of its tables, one after another.
pub open spec fn schema_listing(tables: Seq<TableView>) -> Seq<char> {
    tables.flat_map(|t: TableView| table_listing(t))
}

/// The repair statements of a column: one or none.
pub open spec fn column_repairs(c: ColumnView) -> Seq<Seq<char>> {
    match fix_statement_of(c) {
        Some(statement) => seq![statement],
        None => Seq::empty(),
    }
}

/// The repair statements of the columns of a table, in their order.
pub open spec fn table_repairs(t: TableView) -> Seq<Seq<char>> {
    t.columns.flat_map(|c: ColumnView| column_repairs(c))
}

/// The repair statements of a schema: those of its tables, one table after
/// another.
pub open spec fn schema_repairs(tables: Seq<TableView>) -> Seq<Seq<char>> {
    tables.flat_map(|t: TableView| table_repairs(t))
}

/// The message for a table that the second schema lacks.
pub open spec fn table_missing_text(table: Seq<char>) -> Seq<char> {
    "Table '"@ + table + "' not found in schema #2"@
}

/// The message for a column that the second schema lacks in a table that it
/// has.
pub open spec fn column_missing_text(table: Seq<char>, name: Seq<char>) -> Seq<char> {
    "Column '"@ + table + "."@ + name + "' not found in schema #2"@
}

/// What there is to report of column `c`, given the columns that the second
/// schema has in the table of the same name: that it is missing, or how its
/// counterpart differs, or nothing.
pub open spec fn column_report(c: ColumnView, others: Seq<ColumnView>) -> Seq<Seq<char>> {
    match find_column(others, c.name) {
        Some(j) => match column_diff_of(c, others[j]) {
            Some(message) => seq![message],
            None => Seq::empty(),
        },
        None => seq![column_missing_text(c.table, c.name)],
    }
}

/// What there is to report of table `t`, given the second schema: that the
/// table is missing, and then nothing of its columns, or else the reports of
/// its columns in their order.
pub open spec fn table_report(t: TableView, second: Seq<TableView>) -> Seq<Seq<char>> {
    match find_table(second, t.name) {
        Some(i) => t.columns.flat_map(|c: ColumnView| column_report(c, second[i].columns)),
        None => seq![table_missing_text(t.name)],
    }
}

/// The messages of comparing `first` with `second`: the reports of the tables
/// of `first`, one table after another. Nothing is reported of what only
/// `second` has.
pub open spec fn schema_diff(first: Seq<TableView>, second: Seq<TableView>) -> Seq<Seq<char>> {
    first.flat_map(|t: TableView| table_report(t, second))
}

/// Mapping each item of a sequence to a run of items and joining the runs
/// can be done item by item.
pub proof fn lemma_flat_map_next<A, B>(s: Seq<A>, f: spec_fn(A) -> Seq<B>, i: int)
    requires
        0 <= i < s.len(),
    ensures
        s.take(i + 1).flat_map(f) == s.take(i).flat_map(f) + f(s[i]),
{
    broadcast use Seq::lemma_flatten_push;

    assert(s.take(i + 1) =~= s.take(i).push(s[i]));
    assert(s.take(i).push(s[i]).map_values(f) =~= s.take(i).map_values(f).push(f(s[i])));
}

} // verus!
