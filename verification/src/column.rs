//! One declared column, its listing line, the statement that repairs it and
//! its comparison with the column of the same name in another schema.

use vstd::prelude::*;
use vstd::string::StringExecFns;
use crate::text::{contains, occurs_in};

verus! {

/// A column as it was declared: the table that owns it, its type token, its
/// name, and the text that followed the name, kept as written.
#[derive(Debug, PartialEq, Eq)]
pub struct Column {
    pub table: String,
    pub kind: String,
    pub name: String,
    pub options: String,
}

/// The mathematical value of a [`Column`].
pub ghost struct ColumnView {
    pub table: Seq<char>,
    pub kind: Seq<char>,
    pub name: Seq<char>,
    pub options: Seq<char>,
}

impl Clone for Column {
    fn clone(&self) -> (copy: Column)
        ensures
            copy == *self,
    {
        Column {
            table: self.table.clone(),
            kind: self.kind.clone(),
            name: self.name.clone(),
            options: self.options.clone(),
        }
    }
}

impl View for Column {
    type V = ColumnView;

    open spec fn view(&self) -> ColumnView {
        ColumnView {
            table: self.table@,
            kind: self.kind@,
            name: self.name@,
            options: self.options@,
        }
    }
}

impl DeepView for Column {
    type V = ColumnView;

    open spec fn deep_view(&self) -> ColumnView {
        self@
    }
}

/// The listing line of a column: type, quoted name, options.
pub open spec fn listing_text(c: ColumnView) -> Seq<char> {
    c.kind + " '"@ + c.name + "', "@ + c.options
}

/// The statement that turns column `name` of `table` into an unbounded
/// character column.
pub open spec fn fix_statement_text(table: Seq<char>, name: Seq<char>) -> Seq<char> {
    "ALTER TABLE \""@ + table + "\" ALTER COLUMN \""@ + name
        + "\" SET DATA TYPE character varying;"@
}

/// A column needs the repair exactly when its type is `string` and its
/// options mention a limit of 255.
pub open spec fn needs_fix(c: ColumnView) -> bool {
    c.kind == "string"@ && occurs_in("limit: 255"@, c.options)
}

/// The repair statement of a column, if it needs one.
pub open spec fn fix_statement_of(c: ColumnView) -> Option<Seq<char>> {
    if needs_fix(c) {
        Some(fix_statement_text(c.table, c.name))
    } else {
        None
    }
}

/// The message for two columns of one name whose types differ.
pub open spec fn kind_mismatch_text(a: ColumnView, b: ColumnView) -> Seq<char> {
    "Mismatching types for '"@ + a.table + "."@ + a.name + "': '"@ + a.kind + "' vs. '"@ + b.kind
        + "'"@
}

/// The message for two columns of one name and type whose options differ.
pub open spec fn options_mismatch_text(a: ColumnView, b: ColumnView) -> Seq<char> {
    "Mismatching options for '"@ + a.table + "."@ + a.name + "':\n  '"@ + a.options
        + "'\n  vs.\n  '"@ + b.options + "'"@
}

/// What comparing column `a` with its counterpart `b` reports: the types are
/// compared first, and the options only where the types agree.
pub open spec fn column_diff_of(a: ColumnView, b: ColumnView) -> Option<Seq<char>> {
    if a.kind != b.kind {
        Some(kind_mismatch_text(a, b))
    } else if a.options != b.options {
        Some(options_mismatch_text(a, b))
    } else {
        None
    }
}

impl Column {
    /// The listing line of this column.
    pub fn to_string(&self) -> (line: String)
        ensures
            line@ == listing_text(self@),
    {
        let mut line = self.kind.clone();
        line.append(" '");
        line.append(self.name.as_str());
        line.append("', ");
        line.append(self.options.as_str());
        line
    }

    /// The statement that repairs this column, or `None` where the column
    /// needs no repair.
    pub fn fix_statement(&self) -> (statement: Option<String>)
        ensures
            statement.deep_view() == fix_statement_of(self@),
    {
        if self.kind == String::from_str("string") && contains(self.options.as_str(), "limit: 255") {
            let mut statement = String::from_str("ALTER TABLE \"");
            statement.append(self.table.as_str());
            statement.append("\" ALTER COLUMN \"");
            statement.append(self.name.as_str());
            statement.append("\" SET DATA TYPE character varying;");
            Some(statement)
        } else {
            None
        }
    }

    /// Compares this column with the column of the same name in a second
    /// schema and returns the message that describes the first difference,
    /// or `None` where type and options agree.
    pub fn diff(&self, other: &Column) -> (message: Option<String>)
        ensures
            message.deep_view() == column_diff_of(self@, other@),
            self.kind@ != other.kind@ ==> message.deep_view() == Some(
                kind_mismatch_text(self@, other@),
            ),
    {
        if self.kind != other.kind {
            let mut message = String::from_str("Mismatching types for '");
            message.append(self.table.as_str());
            message.append(".");
            message.append(self.name.as_str());
            message.append("': '");
            message.append(self.kind.as_str());
            message.append("' vs. '");
            message.append(other.kind.as_str());
            message.append("'");
            Some(message)
        } else if self.options != other.options {
            let mut message = String::from_str("Mismatching options for '");
            message.append(self.table.as_str());
            message.append(".");
            message.append(self.name.as_str());
            message.append("':\n  '");
            message.append(self.options.as_str());
            message.append("'\n  vs.\n  '");
            message.append(other.options.as_str());
            message.append("'");
            Some(message)
        } else {
            None
        }
    }
}

} // verus!
