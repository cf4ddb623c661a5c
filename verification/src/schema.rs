//! The schema: tables and their columns, found by name.

use vstd::prelude::*;
use vstd::string::StringExecFns;
use crate::column::{Column, ColumnView};
use crate::model::{
    column_line, column_names, column_repairs, column_report, find_column, find_table, has_table,
    lemma_flat_map_next, lemma_put_wf, lookup, put, put_column, schema_diff, schema_listing,
    schema_repairs, schema_wf, table_listing, table_names, table_repairs, table_report, TableView,
};

verus! {

/// A table and the columns declared in it.
#[derive(Debug, PartialEq, Eq)]
struct Table {
    name: String,
    columns: Vec<Column>,
}

impl DeepView for Table {
    type V = TableView;

    closed spec fn deep_view(&self) -> TableView {
        TableView { name: self.name@, columns: self.columns.deep_view() }
    }
}

/// The tables and columns that a schema description declares.
#[derive(Debug, PartialEq, Eq)]
pub struct Schema {
    tables: Vec<Table>,
}

impl View for Schema {
    type V = Seq<TableView>;

    closed spec fn view(&self) -> Seq<TableView> {
        self.tables.deep_view()
    }
}

fn column_position(columns: &Vec<Column>, name: &String) -> (found: Option<usize>)
    ensures
        match found {
            Some(j) => j < columns.len() && find_column(columns.deep_view(), name@) == Some(
                j as int,
            ),
            None => find_column(columns.deep_view(), name@) is None,
        },
{
    let ghost names = column_names(columns.deep_view());
    let mut j: usize = 0;
    while j < columns.len()
        invariant
            j <= columns.len(),
            names == column_names(columns.deep_view()),
            forall|k: int| 0 <= k < j ==> names[k] != name@,
        decreases columns.len() - j,
    {
        assert(names[j as int] == columns[j as int].name@);
        if columns[j].name == *name {
            proof {
                names.index_of_first_ensures(name@);
            }
            return Some(j);
        }
        j += 1;
    }
    proof {
        names.index_of_first_ensures(name@);
    }
    None
}

fn table_position(tables: &Vec<Table>, name: &String) -> (found: Option<usize>)
    ensures
        match found {
            Some(i) => i < tables.len() && find_table(tables.deep_view(), name@) == Some(
                i as int,
            ),
            None => find_table(tables.deep_view(), name@) is None,
        },
{
    let ghost names = table_names(tables.deep_view());
    let mut i: usize = 0;
    while i < tables.len()
        invariant
            i <= tables.len(),
            names == table_names(tables.deep_view()),
            forall|k: int| 0 <= k < i ==> names[k] != name@,
        decreases tables.len() - i,
    {
        assert(names[i as int] == tables[i as int].name@);
        if tables[i].name == *name {
            proof {
                names.index_of_first_ensures(name@);
            }
            return Some(i);
        }
        i += 1;
    }
    proof {
        names.index_of_first_ensures(name@);
    }
    None
}

/// Appends the listing of `table` to `text`.
fn list_table(text: &mut String, table: &Table)
    ensures
        final(text)@ == old(text)@ + table_listing(table.deep_view()),
{
    let ghost columns = table.columns.deep_view();
    let ghost line = |c: ColumnView| column_line(c);
    text.append(table.name.as_str());
    text.append("\n");
    let ghost head = text@;
    let mut j: usize = 0;
    assert(columns.take(0).flat_map(line) =~= Seq::<char>::empty());
    while j < table.columns.len()
        invariant
            j <= table.columns.len(),
            columns == table.columns.deep_view(),
            line == |c: ColumnView| column_line(c),
            text@ == head + columns.take(j as int).flat_map(line),
        decreases table.columns.len() - j,
    {
        let listed = table.columns[j].to_string();
        text.append("\t");
        text.append(listed.as_str());
        text.append("\n");
        proof {
            lemma_flat_map_next(columns, line, j as int);
            assert(text@ =~= head + columns.take(j + 1).flat_map(line));
        }
        j += 1;
    }
    assert(columns.take(j as int) =~= columns);
    assert(text@ =~= old(text)@ + table_listing(table.deep_view()));
}

/// Appends the repair statements of the columns of `table` to `statements`.
fn repair_table(statements: &mut Vec<String>, table: &Table)
    ensures
        final(statements).deep_view() == old(statements).deep_view() + table_repairs(
            table.deep_view(),
        ),
{
    let ghost columns = table.columns.deep_view();
    let ghost fix = |c: ColumnView| column_repairs(c);
    let ghost head = statements.deep_view();
    let mut j: usize = 0;
    assert(head + columns.take(0).flat_map(fix) =~= head);
    while j < table.columns.len()
        invariant
            j <= table.columns.len(),
            columns == table.columns.deep_view(),
            fix == |c: ColumnView| column_repairs(c),
            statements.deep_view() == head + columns.take(j as int).flat_map(fix),
        decreases table.columns.len() - j,
    {
        let ghost so_far = statements.deep_view();
        match table.columns[j].fix_statement() {
            Some(statement) => {
                statements.push(statement);
                assert(statements.deep_view() =~= so_far + seq![statement@]);
            },
            None => {
                assert(statements.deep_view() =~= so_far + Seq::<Seq<char>>::empty());
            },
        }
        proof {
            lemma_flat_map_next(columns, fix, j as int);
            assert(statements.deep_view() =~= head + columns.take(j + 1).flat_map(fix));
        }
        j += 1;
    }
    assert(columns.take(j as int) =~= columns);
}

/// Appends to `messages` what there is to report of `column`, given the
/// columns `others` of the table of the same name in the second schema.
fn report_column(messages: &mut Vec<String>, column: &Column, others: &Vec<Column>)
    ensures
        final(messages).deep_view() == old(messages).deep_view() + column_report(
            column@,
            others.deep_view(),
        ),
{
    let ghost so_far = messages.deep_view();
    match column_position(others, &column.name) {
        Some(j) => match column.diff(&others[j]) {
            Some(message) => {
                messages.push(message);
                assert(messages.deep_view() =~= so_far + seq![message@]);
            },
            None => {
                assert(messages.deep_view() =~= so_far + Seq::<Seq<char>>::empty());
            },
        },
        None => {
            let mut message = String::from_str("Column '");
            message.append(column.table.as_str());
            message.append(".");
            message.append(column.name.as_str());
            message.append("' not found in schema #2");
            messages.push(message);
            assert(messages.deep_view() =~= so_far + seq![message@]);
        },
    }
}

/// Appends to `messages` what there is to report of `table`, given the
/// tables `second` of the second schema.
fn report_table(messages: &mut Vec<String>, table: &Table, second: &Vec<Table>)
    ensures
        final(messages).deep_view() == old(messages).deep_view() + table_report(
            table.deep_view(),
            second.deep_view(),
        ),
{
    let ghost head = messages.deep_view();
    match table_position(second, &table.name) {
        Some(i) => {
            let others = &second[i].columns;
            let ghost columns = table.columns.deep_view();
            let ghost report = |c: ColumnView| column_report(c, second.deep_view()[i as int].columns);
            let mut j: usize = 0;
            assert(head + columns.take(0).flat_map(report) =~= head);
            while j < table.columns.len()
                invariant
                    j <= table.columns.len(),
                    columns == table.columns.deep_view(),
                    others.deep_view() == second.deep_view()[i as int].columns,
                    report == |c: ColumnView| column_report(c, second.deep_view()[i as int].columns),
                    messages.deep_view() == head + columns.take(j as int).flat_map(report),
                decreases table.columns.len() - j,
            {
                report_column(messages, &table.columns[j], others);
                proof {
                    lemma_flat_map_next(columns, report, j as int);
                    assert(messages.deep_view() =~= head + columns.take(j + 1).flat_map(report));
                }
                j += 1;
            }
            assert(columns.take(j as int) =~= columns);
        },
        None => {
            let mut message = String::from_str("Table '");
            message.append(table.name.as_str());
            message.append("' not found in schema #2");
            messages.push(message);
            assert(messages.deep_view() =~= head + seq![message@]);
        },
    }
}

impl Schema {
    /// Every schema is well formed, wherever it came from.
    #[verifier::type_invariant]
    pub open spec fn well_formed(&self) -> bool {
        schema_wf(self@)
    }

    /// The schema without tables.
    pub fn new() -> (schema: Schema)
        ensures
            schema@ == Seq::<TableView>::empty(),
            schema_wf(schema@),
    {
        let tables: Vec<Table> = Vec::new();
        assert(tables.deep_view() =~= Seq::<TableView>::empty());
        Schema { tables }
    }

    /// Records `column` under the table that it names. A table that the
    /// schema does not have yet is added after the others; a column of the
    /// same name in that table gives way to `column` and keeps its place.
    pub fn insert(&mut self, column: Column)
        ensures
            final(self)@ == put(old(self)@, column@),
            schema_wf(final(self)@),
    {
        proof {
            use_type_invariant(&*self);
        }
        let mut tables: Vec<Table> = Vec::new();
        std::mem::swap(&mut tables, &mut self.tables);
        let ghost before = tables.deep_view();
        match table_position(&tables, &column.table) {
            Some(i) => {
                let place = column_position(&tables[i].columns, &column.name);
                let ghost listed = tables[i as int].columns.deep_view();
                assert(listed == before[i as int].columns);
                match place {
                    Some(j) => {
                        tables[i].columns[j] = column;
                    },
                    None => {
                        tables[i].columns.push(column);
                    },
                }
                assert(tables[i as int].columns.deep_view() =~= put_column(listed, column@));
                assert(tables[i as int].name@ == before[i as int].name);
                assert(tables.deep_view() =~= put(before, column@));
            },
            None => {
                let name = column.table.clone();
                let mut columns: Vec<Column> = Vec::new();
                columns.push(column);
                assert(columns.deep_view() =~= seq![column@]);
                tables.push(Table { name, columns });
                assert(tables.deep_view() =~= put(before, column@));
            },
        }
        proof {
            lemma_put_wf(before, column@);
        }
        self.tables = tables;
    }

    /// The listing of the schema: for each table a line with its name, then
    /// for each of its columns a line that begins with a tab. Tables and
    /// columns come in the order in which they were first recorded.
    pub fn to_string(&self) -> (text: String)
        ensures
            text@ == schema_listing(self@),
    {
        let ghost list = |t: TableView| table_listing(t);
        let mut text = String::new();
        let mut i: usize = 0;
        assert(self@.take(0).flat_map(list) =~= Seq::<char>::empty());
        while i < self.tables.len()
            invariant
                i <= self.tables.len(),
                list == |t: TableView| table_listing(t),
                text@ == self@.take(i as int).flat_map(list),
            decreases self.tables.len() - i,
        {
            list_table(&mut text, &self.tables[i]);
            proof {
                lemma_flat_map_next(self@, list, i as int);
            }
            i += 1;
        }
        assert(self@.take(i as int) =~= self@);
        text
    }

    /// The statements that repair the columns in need of repair, one for
    /// each, in the order in which the listing shows the columns.
    pub fn repair(&self) -> (statements: Vec<String>)
        ensures
            statements.deep_view() == schema_repairs(self@),
    {
        let ghost fix = |t: TableView| table_repairs(t);
        let mut statements: Vec<String> = Vec::new();
        let mut i: usize = 0;
        assert(statements.deep_view() =~= self@.take(0).flat_map(fix));
        while i < self.tables.len()
            invariant
                i <= self.tables.len(),
                fix == |t: TableView| table_repairs(t),
                statements.deep_view() == self@.take(i as int).flat_map(fix),
            decreases self.tables.len() - i,
        {
            repair_table(&mut statements, &self.tables[i]);
            proof {
                lemma_flat_map_next(self@, fix, i as int);
            }
            i += 1;
        }
        assert(self@.take(i as int) =~= self@);
        statements
    }

    /// The messages that tell how `other`, the second schema, falls short of
    /// this one: for each table of this schema, in listing order, that the
    /// second lacks it, or else for each of its columns that the second lacks
    /// it or declares it otherwise. What only the second schema has is not
    /// reported.
    pub fn diff(&self, other: &Schema) -> (messages: Vec<String>)
        ensures
            messages.deep_view() == schema_diff(self@, other@),
    {
        let ghost report = |t: TableView| table_report(t, other@);
        let mut messages: Vec<String> = Vec::new();
        let mut i: usize = 0;
        assert(messages.deep_view() =~= self@.take(0).flat_map(report));
        while i < self.tables.len()
            invariant
                i <= self.tables.len(),
                report == |t: TableView| table_report(t, other@),
                messages.deep_view() == self@.take(i as int).flat_map(report),
            decreases self.tables.len() - i,
        {
            report_table(&mut messages, &self.tables[i], &other.tables);
            proof {
                lemma_flat_map_next(self@, report, i as int);
            }
            i += 1;
        }
        assert(self@.take(i as int) =~= self@);
        messages
    }

    /// Whether the schema has a table called `table`.
    pub fn has_table(&self, table: &str) -> (found: bool)
        ensures
            found == has_table(self@, table@),
    {
        let name = String::from_str(table);
        table_position(&self.tables, &name).is_some()
    }

    /// The column `name` of table `table`, if the schema has it.
    pub fn get(&self, table: &str, name: &str) -> (found: Option<&Column>)
        ensures
            found.deep_view() == lookup(self@, table@, name@),
    {
        let table = String::from_str(table);
        let name = String::from_str(name);
        match table_position(&self.tables, &table) {
            Some(i) => match column_position(&self.tables[i].columns, &name) {
                Some(j) => Some(&self.tables[i].columns[j]),
                None => None,
            },
            None => None,
        }
    }
}

} // verus!
