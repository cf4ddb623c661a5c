//! Reading a schema description line by line: each column declaration is
//! recorded under the table that the latest table declaration before it
//! opened.

use vstd::prelude::*;
use crate::column::{Column, ColumnView};
use crate::model::{put, schema_wf, TableView};
use crate::recognize::{
    classify_each, column_pattern, lines_of, refused_pattern, regex_accepts, table_pattern, Line,
    LineView, PatternError,
};
use crate::schema::Schema;

verus! {

/// The state of a scan: the name of the table that is open, empty before the
/// first table declaration, and the tables recorded so far.
pub ghost struct ScanView {
    pub table: Seq<char>,
    pub tables: Seq<TableView>,
}

/// The state before the first line.
pub open spec fn start() -> ScanView {
    ScanView { table: Seq::empty(), tables: Seq::empty() }
}

/// The state after one more line. A table declaration opens its table and
/// records nothing; a column declaration records the column under the table
/// that is open; any other line leaves the state as it is.
pub open spec fn step(state: ScanView, line: LineView) -> ScanView {
    match line {
        LineView::Table { name } => ScanView { table: name, tables: state.tables },
        LineView::Column { kind, name, options } => ScanView {
            table: state.table,
            tables: put(state.tables, ColumnView { table: state.table, kind, name, options }),
        },
        LineView::Other => state,
    }
}

/// The state after `lines`, taken in order from the start.
pub open spec fn scan(lines: Seq<LineView>) -> ScanView
    decreases lines.len(),
{
    if lines.len() == 0 {
        start()
    } else {
        step(scan(lines.drop_last()), lines.last())
    }
}

/// The schema that the lines `texts` declare.
pub open spec fn schema_of(texts: Seq<Seq<char>>) -> Seq<TableView> {
    scan(lines_of(texts)).tables
}

/// A scan in progress.
#[derive(Debug)]
pub struct Reader {
    table: String,
    schema: Schema,
}

impl View for Reader {
    type V = ScanView;

    closed spec fn view(&self) -> ScanView {
        ScanView { table: self.table@, tables: self.schema@ }
    }
}

impl Reader {
    /// A scan that has seen no line.
    pub fn new() -> (reader: Reader)
        ensures
            reader@ == start(),
    {
        Reader { table: String::new(), schema: Schema::new() }
    }

    /// Takes the next line into account.
    pub fn accept(&mut self, line: Line)
        ensures
            final(self)@ == step(old(self)@, line@),
    {
        match line {
            Line::Table { name } => {
                self.table = name;
            },
            Line::Column { kind, name, options } => {
                let column = Column { table: self.table.clone(), kind, name, options };
                self.schema.insert(column);
            },
            Line::Other => {},
        }
    }

    /// Ends the scan and hands out the schema read.
    pub fn finish(self) -> (schema: Schema)
        ensures
            schema@ == self@.tables,
            schema_wf(schema@),
    {
        proof {
            use_type_invariant(&self.schema);
        }
        self.schema
    }
}

impl Schema {
    /// Reads the schema that the lines `texts` declare. Lines that declare
    /// neither a table nor a column are passed over. No line makes the
    /// reading fail: it succeeds exactly where the regular-expression engine
    /// accepts the two patterns by which lines are recognised, and where it
    /// does not, the failure names the first of the two that the engine did
    /// not accept.
    pub fn parse(texts: &Vec<String>) -> (outcome: Result<Schema, PatternError>)
        ensures
            (outcome is Ok) == (regex_accepts(table_pattern()) && regex_accepts(column_pattern())),
            match outcome {
                Ok(schema) => schema@ == schema_of(texts.deep_view()) && schema_wf(schema@),
                Err(refused) => refused.pattern@ == refused_pattern(),
            },
    {
        let lines = classify_each(texts)?;
        let ghost kinds = lines.deep_view();
        let mut reader = Reader::new();
        for line in it: lines.into_iter()
            invariant
                it.seq().len() == kinds.len(),
                forall|k: int| 0 <= k < kinds.len() ==> (#[trigger] it.seq()[k])@ == kinds[k],
                reader@ == scan(kinds.take(it.index())),
        {
            reader.accept(line);
            proof {
                assert(kinds.take(it.index() + 1).drop_last() =~= kinds.take(it.index()));
            }
        }
        assert(kinds.take(kinds.len() as int) =~= kinds);
        Ok(reader.finish())
    }
}

} // verus!
