//! What holds of the schema model and of reading, stated over the model and
//! proved: recording a column is insertion into the mapping, the declaration
//! read last decides, a column belongs to the table opened last before it,
//! and a comparison reports what the second schema lacks, never what only it
//! has.

use vstd::prelude::*;
use crate::column::{column_diff_of, kind_mismatch_text, ColumnView};
use crate::model::{
    column_names, column_report, definitions, find_column, find_table, has_table, lemma_put_wf,
    lookup, put, put_column, schema_diff, schema_wf, table_missing_text, table_names, table_report,
    table_wf, TableView,
};
use crate::reader::{scan, schema_of};
use crate::recognize::LineView;

verus! {

/// The first place of `x` in `s` is `k` once `x` stands at `k` and nowhere
/// before.
proof fn lemma_first_place<A>(s: Seq<A>, x: A, k: int)
    requires
        0 <= k < s.len(),
        s[k] == x,
        forall|j: int| 0 <= j < k ==> s[j] != x,
    ensures
        s.index_of_first(x) == Some(k),
{
    s.index_of_first_ensures(x);
    assert(s.contains(x));
}

/// Writing `x` again where it already stands first, or appending another
/// item, moves no first place.
proof fn lemma_first_place_kept<A>(s: Seq<A>, after: Seq<A>, x: A)
    requires
        s.len() <= after.len(),
        forall|j: int| 0 <= j < s.len() ==> after[j] == s[j],
        forall|j: int| s.len() <= j < after.len() ==> after[j] != x,
    ensures
        after.index_of_first(x) == s.index_of_first(x),
{
    s.index_of_first_ensures(x);
    after.index_of_first_ensures(x);
    match s.index_of_first(x) {
        Some(k) => {
            lemma_first_place(after, x, k);
        },
        None => {
            if after.contains(x) {
                let k = after.index_of_first(x)->0;
                assert(s[k] == x);
                assert(s.contains(x));
            }
        },
    }
}

/// After a column is recorded among the columns of a table, its name finds
/// it, and every other name finds what it found before.
proof fn lemma_put_column_finds(columns: Seq<ColumnView>, c: ColumnView, name: Seq<char>)
    ensures
        match find_column(put_column(columns, c), name) {
            Some(j) => {
                &&& 0 <= j < put_column(columns, c).len()
                &&& if name == c.name {
                    put_column(columns, c)[j] == c
                } else {
                    find_column(columns, name) == Some(j) && put_column(columns, c)[j]
                        == columns[j]
                }
            },
            None => name != c.name && find_column(columns, name) is None,
        },
{
    let names = column_names(columns);
    let after = put_column(columns, c);
    names.index_of_first_ensures(c.name);
    names.index_of_first_ensures(name);
    column_names(after).index_of_first_ensures(name);
    match find_column(columns, c.name) {
        Some(j) => {
            assert(column_names(after) =~= names);
        },
        None => {
            assert(column_names(after) =~= names.push(c.name));
            if name == c.name {
                lemma_first_place(column_names(after), name, names.len() as int);
            } else {
                lemma_first_place_kept(names, column_names(after), name);
            }
        },
    }
}

/// **Recording is insertion.** After `c` is recorded, the table and name of
/// `c` find `c`, and every other pair of names finds what it found before.
pub proof fn law_put_lookup(tables: Seq<TableView>, c: ColumnView, table: Seq<char>, name: Seq<char>)
    ensures
        lookup(put(tables, c), table, name) == if table == c.table && name == c.name {
            Some(c)
        } else {
            lookup(tables, table, name)
        },
        has_table(put(tables, c), table) == (table == c.table || has_table(tables, table)),
{
    let names = table_names(tables);
    let after = put(tables, c);
    names.index_of_first_ensures(c.table);
    names.index_of_first_ensures(table);
    table_names(after).index_of_first_ensures(table);
    let wanted = if table == c.table && name == c.name {
        Some(c)
    } else {
        lookup(tables, table, name)
    };
    match find_table(tables, c.table) {
        Some(i) => {
            assert(table_names(after) =~= names);
            assert(names[i] == tables[i].name);
            if table == c.table {
                lemma_put_column_finds(tables[i].columns, c, name);
                assert(find_table(after, table) == Some(i));
                assert(after[i].columns == put_column(tables[i].columns, c));
                assert(lookup(after, table, name) == wanted);
            } else {
                match find_table(tables, table) {
                    Some(k) => {
                        assert(names[k] == table);
                        assert(k != i);
                        assert(after[k] == tables[k]);
                    },
                    None => {},
                }
                assert(lookup(after, table, name) == wanted);
            }
        },
        None => {
            assert(table_names(after) =~= names.push(c.table));
            if table == c.table {
                lemma_first_place(table_names(after), table, names.len() as int);
                lemma_put_column_finds(Seq::empty(), c, name);
                column_names(Seq::<ColumnView>::empty()).index_of_first_ensures(c.name);
                column_names(Seq::<ColumnView>::empty()).index_of_first_ensures(name);
                assert(put_column(Seq::empty(), c) =~= seq![c]);
                assert(after[names.len() as int].columns == seq![c]);
                assert(lookup(after, table, name) == wanted);
            } else {
                lemma_first_place_kept(names, table_names(after), table);
                match find_table(tables, table) {
                    Some(k) => {
                        assert(after[k] == tables[k]);
                    },
                    None => {},
                }
                assert(lookup(after, table, name) == wanted);
            }
        },
    }
}

/// **A column stands under its own names.** In a well-formed schema the
/// column found under a table name and a column name carries these two
/// names itself.
pub proof fn law_found_under_own_names(
    tables: Seq<TableView>,
    table: Seq<char>,
    name: Seq<char>,
)
    requires
        schema_wf(tables),
        lookup(tables, table, name) is Some,
    ensures
        lookup(tables, table, name)->0.table == table,
        lookup(tables, table, name)->0.name == name,
        definitions(tables)[table][name] == lookup(tables, table, name)->0,
{
    table_names(tables).index_of_first_ensures(table);
    let i = find_table(tables, table)->0;
    assert(table_names(tables)[i] == tables[i].name);
    assert(table_wf(tables[i]));
    column_names(tables[i].columns).index_of_first_ensures(name);
    let j = find_column(tables[i].columns, name)->0;
    assert(column_names(tables[i].columns)[j] == tables[i].columns[j].name);
}

/// The columns of `table` in the mapping that a schema stands for, none
/// where the schema lacks the table.
pub open spec fn columns_of(tables: Seq<TableView>, table: Seq<char>) -> Map<
    Seq<char>,
    ColumnView,
> {
    if definitions(tables).dom().contains(table) {
        definitions(tables)[table]
    } else {
        Map::empty()
    }
}

/// **Recording is insertion, in the mapping.** The mapping after `c` is
/// recorded is the mapping before with `c` put under the name of its table
/// and its own name; a column that stood there is replaced.
pub proof fn law_put_is_map_insert(tables: Seq<TableView>, c: ColumnView)
    ensures
        definitions(put(tables, c)) == definitions(tables).insert(
            c.table,
            columns_of(tables, c.table).insert(c.name, c),
        ),
{
    let after = definitions(put(tables, c));
    let wanted = definitions(tables).insert(
        c.table,
        columns_of(tables, c.table).insert(c.name, c),
    );
    assert forall|table: Seq<char>| after.dom().contains(table) == wanted.dom().contains(
        table,
    ) by {
        law_put_lookup(tables, c, table, c.name);
    }
    assert forall|table: Seq<char>| #[trigger] after.dom().contains(table) implies after[table]
        == wanted[table] by {
        let left = after[table];
        let right = wanted[table];
        assert forall|name: Seq<char>| #[trigger]
            left.dom().contains(name) == right.dom().contains(name) by {
            law_put_lookup(tables, c, table, name);
        }
        assert forall|name: Seq<char>| #[trigger] left.dom().contains(name) implies left[name]
            == right[name] by {
            law_put_lookup(tables, c, table, name);
        }
        assert(left =~= right);
    }
    assert(after =~= wanted);
}

/// **The kept column is the one recorded last.** Of two columns recorded one
/// after the other under the same table and the same name, the schema holds
/// the second and nothing of the first: it is the schema that recording the
/// second alone gives.
pub proof fn law_last_write_wins(tables: Seq<TableView>, first: ColumnView, second: ColumnView)
    requires
        first.table == second.table,
        first.name == second.name,
    ensures
        lookup(put(put(tables, first), second), second.table, second.name) == Some(second),
        put(put(tables, first), second) == put(tables, second),
{
    law_put_lookup(put(tables, first), second, second.table, second.name);
    lemma_put_over(tables, first, second);
}

/// Among the columns of a table, recording a second column over a first of
/// the same name gives what recording the second alone gives.
proof fn lemma_put_column_over(columns: Seq<ColumnView>, first: ColumnView, second: ColumnView)
    requires
        first.name == second.name,
    ensures
        put_column(put_column(columns, first), second) == put_column(columns, second),
{
    let names = column_names(columns);
    let once = put_column(columns, first);
    names.index_of_first_ensures(first.name);
    match find_column(columns, first.name) {
        Some(j) => {
            assert(column_names(once) =~= names);
            assert(put_column(once, second) =~= put_column(columns, second));
        },
        None => {
            assert(column_names(once) =~= names.push(first.name));
            lemma_first_place(column_names(once), first.name, names.len() as int);
            assert(put_column(once, second) =~= put_column(columns, second));
        },
    }
}

/// In a schema, recording a second column over a first of the same table
/// and name gives what recording the second alone gives.
proof fn lemma_put_over(tables: Seq<TableView>, first: ColumnView, second: ColumnView)
    requires
        first.table == second.table,
        first.name == second.name,
    ensures
        put(put(tables, first), second) == put(tables, second),
{
    let names = table_names(tables);
    let once = put(tables, first);
    names.index_of_first_ensures(first.table);
    match find_table(tables, first.table) {
        Some(i) => {
            assert(table_names(once) =~= names);
            lemma_put_column_over(tables[i].columns, first, second);
            assert(put(once, second) =~= put(tables, second));
        },
        None => {
            assert(table_names(once) =~= names.push(first.table));
            lemma_first_place(table_names(once), first.table, names.len() as int);
            lemma_put_column_over(Seq::empty(), first, second);
            column_names(Seq::<ColumnView>::empty()).index_of_first_ensures(first.name);
            assert(put_column(Seq::empty(), first) =~= seq![first]);
            assert(put_column(Seq::empty(), second) =~= seq![second]);
            assert(put(once, second) =~= put(tables, second));
        },
    }
}

/// The table that is open when line `i` is read: the one named by the
/// latest table declaration among the lines before `i`, and the table of the
/// empty name where there is none.
pub open spec fn open_table(lines: Seq<LineView>, i: int) -> Seq<char>
    decreases i,
{
    if i <= 0 || i > lines.len() {
        Seq::empty()
    } else {
        match lines[i - 1] {
            LineView::Table { name } => name,
            _ => open_table(lines, i - 1),
        }
    }
}

/// Line `i` declares the column `name` of `table`: it is a column declaration
/// of that name, read while `table` is open.
pub open spec fn declares(lines: Seq<LineView>, i: int, table: Seq<char>, name: Seq<char>) -> bool {
    &&& 0 <= i < lines.len()
    &&& lines[i] matches LineView::Column { name: declared, .. }
    &&& declared == name
    &&& open_table(lines, i) == table
}

/// The column that the column declaration at line `i` declares.
pub open spec fn declared_column(lines: Seq<LineView>, i: int) -> ColumnView {
    ColumnView {
        table: open_table(lines, i),
        kind: lines[i]->kind,
        name: lines[i]->Column_name,
        options: lines[i]->options,
    }
}

/// The column `name` of `table` as the first `upto` lines leave it: what the
/// latest of them that declares it declares.
spec fn latest(lines: Seq<LineView>, upto: int, table: Seq<char>, name: Seq<char>) -> Option<
    ColumnView,
>
    decreases upto,
{
    if upto <= 0 {
        None
    } else if declares(lines, upto - 1, table, name) {
        Some(declared_column(lines, upto - 1))
    } else {
        latest(lines, upto - 1, table, name)
    }
}

/// After the first `upto` lines the scan has open the table that is open at
/// line `upto`, and holds each column as its latest declaration left it.
proof fn lemma_scan_prefix(lines: Seq<LineView>, upto: int, table: Seq<char>, name: Seq<char>)
    requires
        0 <= upto <= lines.len(),
    ensures
        scan(lines.take(upto)).table == open_table(lines, upto),
        lookup(scan(lines.take(upto)).tables, table, name) == latest(lines, upto, table, name),
        schema_wf(scan(lines.take(upto)).tables),
    decreases upto,
{
    if upto == 0 {
        table_names(Seq::<TableView>::empty()).index_of_first_ensures(table);
    } else {
        lemma_scan_prefix(lines, upto - 1, table, name);
        assert(lines.take(upto).drop_last() =~= lines.take(upto - 1));
        let before = scan(lines.take(upto - 1));
        match lines[upto - 1] {
            LineView::Column { kind, name: declared, options } => {
                let c = ColumnView { table: before.table, kind, name: declared, options };
                law_put_lookup(before.tables, c, table, name);
                lemma_put_wf(before.tables, c);
            },
            _ => {},
        }
    }
}

/// **Reading is a function of the lines.** Two runs over the same lines give
/// the same schema, table for table and column for column.
pub proof fn law_same_lines_same_schema(first: Seq<Seq<char>>, second: Seq<Seq<char>>)
    requires
        first.len() == second.len(),
        forall|i: int| 0 <= i < first.len() ==> first[i] == second[i],
    ensures
        schema_of(first) == schema_of(second),
{
    assert(first =~= second);
}

/// **What is read is well formed.** Whatever the lines, no two tables of the
/// schema read share a name, no two columns of a table share a name, every
/// table has a column and every column names the table it stands in.
pub proof fn law_scan_well_formed(lines: Seq<LineView>)
    ensures
        schema_wf(scan(lines).tables),
{
    lemma_scan_prefix(lines, lines.len() as int, Seq::empty(), Seq::empty());
    assert(lines.take(lines.len() as int) =~= lines);
}

/// **The declaration read last decides.** Where line `last` declares the
/// column `name` of `table` and no later line declares it again, the schema
/// read holds under these names exactly what line `last` declares, whatever
/// earlier lines declared under them.
pub proof fn law_last_declaration_wins(
    lines: Seq<LineView>,
    table: Seq<char>,
    name: Seq<char>,
    last: int,
)
    requires
        declares(lines, last, table, name),
        forall|k: int| last < k < lines.len() ==> !declares(lines, k, table, name),
    ensures
        lookup(scan(lines).tables, table, name) == Some(declared_column(lines, last)),
{
    lemma_scan_prefix(lines, lines.len() as int, table, name);
    assert(lines.take(lines.len() as int) =~= lines);
    lemma_latest_is_last(lines, lines.len() as int, table, name, last);
}

proof fn lemma_latest_is_last(
    lines: Seq<LineView>,
    upto: int,
    table: Seq<char>,
    name: Seq<char>,
    last: int,
)
    requires
        last < upto <= lines.len(),
        declares(lines, last, table, name),
        forall|k: int| last < k < upto ==> !declares(lines, k, table, name),
    ensures
        latest(lines, upto, table, name) == Some(declared_column(lines, last)),
    decreases upto,
{
    if upto - 1 != last {
        lemma_latest_is_last(lines, upto - 1, table, name, last);
    }
}

/// **Nothing is read that no line declares.** Where no line declares the
/// column `name` of `table`, the schema read has no such column.
pub proof fn law_undeclared_is_absent(lines: Seq<LineView>, table: Seq<char>, name: Seq<char>)
    requires
        forall|k: int| 0 <= k < lines.len() ==> !declares(lines, k, table, name),
    ensures
        lookup(scan(lines).tables, table, name) is None,
{
    lemma_scan_prefix(lines, lines.len() as int, table, name);
    assert(lines.take(lines.len() as int) =~= lines);
    lemma_latest_none(lines, lines.len() as int, table, name);
}

proof fn lemma_latest_none(lines: Seq<LineView>, upto: int, table: Seq<char>, name: Seq<char>)
    requires
        0 <= upto <= lines.len(),
        forall|k: int| 0 <= k < upto ==> !declares(lines, k, table, name),
    ensures
        latest(lines, upto, table, name) is None,
    decreases upto,
{
    if upto > 0 {
        lemma_latest_none(lines, upto - 1, table, name);
    }
}

/// **A column declared is a column read, under the table open at its line.**
/// For a column declaration at line `i`, the schema read has a column of the
/// declared name in the table that is open at line `i`, and that column
/// names this table as its owner.
pub proof fn law_declared_is_recorded(lines: Seq<LineView>, i: int)
    requires
        0 <= i < lines.len(),
        lines[i] is Column,
    ensures
        has_table(scan(lines).tables, open_table(lines, i)),
        lookup(scan(lines).tables, open_table(lines, i), lines[i]->Column_name) matches Some(c)
            && c.table == open_table(lines, i) && c.name == lines[i]->Column_name,
{
    let table = open_table(lines, i);
    let name = lines[i]->Column_name;
    assert(declares(lines, i, table, name));
    lemma_scan_prefix(lines, lines.len() as int, table, name);
    assert(lines.take(lines.len() as int) =~= lines);
    lemma_latest_some(lines, lines.len() as int, table, name, i);
}

proof fn lemma_latest_some(
    lines: Seq<LineView>,
    upto: int,
    table: Seq<char>,
    name: Seq<char>,
    i: int,
)
    requires
        0 <= i < upto <= lines.len(),
        declares(lines, i, table, name),
    ensures
        latest(lines, upto, table, name) matches Some(c) && c.table == table && c.name == name,
    decreases upto,
{
    if !declares(lines, upto - 1, table, name) {
        lemma_latest_some(lines, upto - 1, table, name, i);
    }
}

/// **Before any table declaration the table of the empty name is open.**
pub proof fn law_no_table_yet(lines: Seq<LineView>, i: int)
    requires
        0 <= i <= lines.len(),
        forall|k: int| 0 <= k < i ==> !(lines[k] is Table),
    ensures
        open_table(lines, i) == Seq::<char>::empty(),
    decreases i,
{
    if i > 0 {
        law_no_table_yet(lines, i - 1);
    }
}

/// **A table stays open until the next table declaration.** Where line
/// `opened` declares a table and no line between it and line `i` declares
/// one, that table is open at line `i`, whatever else stands between them.
pub proof fn law_table_stays_open(lines: Seq<LineView>, opened: int, i: int)
    requires
        0 <= opened < i <= lines.len(),
        lines[opened] is Table,
        forall|k: int| opened < k < i ==> !(lines[k] is Table),
    ensures
        open_table(lines, i) == lines[opened]->Table_name,
    decreases i,
{
    if i - 1 != opened {
        law_table_stays_open(lines, opened, i - 1);
    }
}

/// **The types are compared first.** Two columns whose types differ give the
/// message about the types and no other, whether or not their options differ
/// too; no pair of columns gives more than one message.
pub proof fn law_kind_mismatch_first(a: ColumnView, b: ColumnView, others: Seq<ColumnView>)
    ensures
        a.kind != b.kind ==> column_diff_of(a, b) == Some(kind_mismatch_text(a, b)),
        column_report(a, others).len() <= 1,
{
}

/// A run of items is among the runs joined.
proof fn lemma_flat_map_contains<A, B>(s: Seq<A>, f: spec_fn(A) -> Seq<B>, i: int, x: B)
    requires
        0 <= i < s.len(),
        f(s[i]).contains(x),
    ensures
        s.flat_map(f).contains(x),
    decreases s.len(),
{
    broadcast use Seq::lemma_flatten_push;

    let front = s.drop_last();
    assert(s =~= front.push(s.last()));
    assert(front.push(s.last()).map_values(f) =~= front.map_values(f).push(f(s.last())));
    assert(s.flat_map(f) == front.flat_map(f) + f(s.last()));
    if i == s.len() - 1 {
        let run = f(s[i]);
        let k = choose|k: int| 0 <= k < run.len() && run[k] == x;
        assert(s.flat_map(f)[front.flat_map(f).len() + k] == x);
    } else {
        lemma_flat_map_contains(front, f, i, x);
        let joined = front.flat_map(f);
        let k = choose|k: int| 0 <= k < joined.len() && joined[k] == x;
        assert(s.flat_map(f)[k] == x);
    }
}

/// Runs that are all empty join to the empty run.
proof fn lemma_flat_map_empty<A, B>(s: Seq<A>, f: spec_fn(A) -> Seq<B>)
    requires
        forall|i: int| 0 <= i < s.len() ==> #[trigger] f(s[i]).len() == 0,
    ensures
        s.flat_map(f) == Seq::<B>::empty(),
    decreases s.len(),
{
    broadcast use Seq::lemma_flatten_push;

    if s.len() == 0 {
        assert(s.map_values(f) =~= Seq::<Seq<B>>::empty());
    } else {
        let front = s.drop_last();
        assert(s =~= front.push(s.last()));
        assert(front.push(s.last()).map_values(f) =~= front.map_values(f).push(f(s.last())));
        assert forall|i: int| 0 <= i < front.len() implies #[trigger] f(front[i]).len() == 0 by {
            assert(front[i] == s[i]);
        }
        lemma_flat_map_empty(front, f);
        assert(f(s[s.len() - 1]).len() == 0);
        assert(s.flat_map(f) =~= Seq::<B>::empty());
    }
}

/// An item of the joined runs comes from one of the runs.
proof fn lemma_flat_map_origin<A, B>(s: Seq<A>, f: spec_fn(A) -> Seq<B>, x: B) -> (i: int)
    requires
        s.flat_map(f).contains(x),
    ensures
        0 <= i < s.len(),
        f(s[i]).contains(x),
    decreases s.len(),
{
    broadcast use Seq::lemma_flatten_push;

    if s.len() == 0 {
        assert(s.map_values(f) =~= Seq::<Seq<B>>::empty());
        assert(s.flat_map(f) =~= Seq::<B>::empty());
        0
    } else {
        let front = s.drop_last();
        assert(s =~= front.push(s.last()));
        assert(front.push(s.last()).map_values(f) =~= front.map_values(f).push(f(s.last())));
        let joined = s.flat_map(f);
        assert(joined == front.flat_map(f) + f(s.last()));
        let k = choose|k: int| 0 <= k < joined.len() && joined[k] == x;
        if k < front.flat_map(f).len() {
            assert(front.flat_map(f)[k] == x);
            let i = lemma_flat_map_origin(front, f, x);
            assert(front[i] == s[i]);
            i
        } else {
            assert(f(s.last())[k - front.flat_map(f).len()] == x);
            s.len() - 1
        }
    }
}

/// **Every message is about a table of the first schema.** Each message of
/// a comparison is among those reported of one of the tables of the first
/// schema; of a table that only the second schema has there is none.
pub proof fn law_diff_speaks_of_first(
    first: Seq<TableView>,
    second: Seq<TableView>,
    message: Seq<char>,
) -> (i: int)
    requires
        schema_diff(first, second).contains(message),
    ensures
        0 <= i < first.len(),
        table_report(first[i], second).contains(message),
{
    lemma_flat_map_origin(first, |t: TableView| table_report(t, second), message)
}

/// **A table that the second schema lacks is reported.** The comparison is
/// made from the first schema's side: each of its tables that the second
/// has no table of the same name for is named among the messages.
pub proof fn law_diff_reports_missing_table(first: Seq<TableView>, second: Seq<TableView>, i: int)
    requires
        0 <= i < first.len(),
        !has_table(second, first[i].name),
    ensures
        schema_diff(first, second).contains(table_missing_text(first[i].name)),
{
    let report = |t: TableView| table_report(t, second);
    assert(report(first[i]) == seq![table_missing_text(first[i].name)]);
    assert(report(first[i])[0] == table_missing_text(first[i].name));
    lemma_flat_map_contains(first, report, i, table_missing_text(first[i].name));
}

/// **What only the second schema has is not reported.** Where the second
/// schema has, for every column of the first, a column of the same table and
/// name with the same type and options, the comparison gives no message,
/// whatever tables and columns the second schema has besides.
pub proof fn law_diff_silent_on_extra(first: Seq<TableView>, second: Seq<TableView>)
    requires
        forall|i: int, j: int|
            0 <= i < first.len() && 0 <= j < first[i].columns.len() ==> (#[trigger] lookup(
                second,
                first[i].name,
                first[i].columns[j].name,
            ) matches Some(c) && c.kind == first[i].columns[j].kind && c.options
                == first[i].columns[j].options),
        forall|i: int| 0 <= i < first.len() ==> has_table(second, #[trigger] first[i].name),
    ensures
        schema_diff(first, second) == Seq::<Seq<char>>::empty(),
{
    let report = |t: TableView| table_report(t, second);
    assert forall|i: int| 0 <= i < first.len() implies #[trigger] report(first[i]).len() == 0 by {
        let t = first[i];
        assert(has_table(second, first[i].name));
        let at = find_table(second, t.name)->0;
        let others = second[at].columns;
        let each = |c: ColumnView| column_report(c, others);
        assert forall|j: int| 0 <= j < t.columns.len() implies #[trigger] each(t.columns[j]).len()
            == 0 by {
            assert(lookup(second, first[i].name, first[i].columns[j].name) is Some);
        }
        lemma_flat_map_empty(t.columns, each);
    }
    lemma_flat_map_empty(first, report);
}

/// **A schema does not differ from itself.**
pub proof fn law_diff_with_itself_is_empty(tables: Seq<TableView>)
    requires
        schema_wf(tables),
    ensures
        schema_diff(tables, tables) == Seq::<Seq<char>>::empty(),
{
    assert forall|i: int, j: int|
        0 <= i < tables.len() && 0 <= j < tables[i].columns.len() implies (#[trigger] lookup(
        tables,
        tables[i].name,
        tables[i].columns[j].name,
    ) matches Some(c) && c.kind == tables[i].columns[j].kind && c.options
        == tables[i].columns[j].options) by {
        lemma_own_column_found(tables, i, j);
    }
    assert forall|i: int| 0 <= i < tables.len() implies has_table(
        tables,
        #[trigger] tables[i].name,
    ) by {
        lemma_own_column_found(tables, i, 0);
    }
    law_diff_silent_on_extra(tables, tables);
}

/// In a well-formed schema the names of a table and of one of its columns
/// find that column.
proof fn lemma_own_column_found(tables: Seq<TableView>, i: int, j: int)
    requires
        schema_wf(tables),
        0 <= i < tables.len(),
        0 <= j < tables[i].columns.len(),
    ensures
        has_table(tables, tables[i].name),
        lookup(tables, tables[i].name, tables[i].columns[j].name) == Some(tables[i].columns[j]),
{
    let names = table_names(tables);
    names.index_of_first_ensures(tables[i].name);
    assert(names[i] == tables[i].name);
    assert(table_wf(tables[i]));
    let own = column_names(tables[i].columns);
    own.index_of_first_ensures(tables[i].columns[j].name);
    assert(own[j] == tables[i].columns[j].name);
}

} // verus!
