//! Recognising lines: the two patterns, the regular-expression search that
//! applies them, and the classification of a line by what the searches found.

use vstd::prelude::*;
use vstd::string::StringExecFns;

verus! {

/// The error with which the `regex` crate refuses a pattern.
#[verifier::external_type_specification]
#[verifier::external_body]
pub struct ExRegexError(regex::Error);

/// What a search finds: `None` where the pattern matches nowhere in the text,
/// else one entry per capture group of the pattern, the whole match first,
/// each holding the text that the group matched, or `None` where the group
/// took no part in the match.
pub type Groups = Option<Seq<Option<Seq<char>>>>;

/// Whether `regex::Regex::new` accepts `pattern`, that is, compiles it
/// rather than returning an error. The builder behind `new` works with fixed
/// settings, so acceptance depends on the pattern alone.
pub uninterp spec fn regex_accepts(pattern: Seq<char>) -> bool;

/// The groups of the leftmost match of the regular expression `pattern` in
/// `text`, as `regex::Regex::captures` reports them for the expression that
/// `regex::Regex::new` compiles from `pattern`. Nothing is stated of it for a
/// pattern that is not accepted.
pub uninterp spec fn regex_captures(pattern: Seq<char>, text: Seq<char>) -> Option<Seq<Option<Seq<char>>>>;

/// Compiles `pattern` once with `regex::Regex::new` and searches each of
/// `texts` with `regex::Regex::captures`. An error is the crate's refusal of
/// the pattern, and comes exactly for the patterns that `new` does not
/// accept, whatever the texts. Otherwise there is one outcome for each text,
/// in order, given group by group, each group by the text that it matched
/// (`regex::Match::as_str`). The contract only names acceptance and the
/// outcomes: it says neither which patterns are accepted nor what an
/// expression matches.
#[verifier::external_body]
fn captures_each(pattern: &str, texts: &Vec<String>) -> (found: Result<
    Vec<Option<Vec<Option<String>>>>,
    regex::Error,
>)
    ensures
        (found is Ok) == regex_accepts(pattern@),
        found matches Ok(each) ==> {
            &&& each.len() == texts.len()
            &&& forall|i: int|
                0 <= i < texts.len() ==> (#[trigger] each[i]).deep_view() == regex_captures(
                    pattern@,
                    texts[i]@,
                )
        },
{
    let expression = regex::Regex::new(pattern)?;
    Ok(
        texts.iter().map(
            |text|
                expression.captures(text).map(
                    |caps| caps.iter().map(|group| group.map(|m| m.as_str().to_string())).collect(),
                ),
        ).collect(),
    )
}

/// The text of a refusal, as the `Display` impl of `regex::Error` writes it.
/// Nothing is claimed of it.
#[verifier::external_body]
fn refusal_text(error: &regex::Error) -> (message: String) {
    error.to_string()
}

/// The pattern that finds a table declaration: the marker `create_table` and
/// the quoted name of the table, which is the first group.
pub const TABLE_PATTERN: &'static str = "create_table \"(\\w+)\"";

/// The pattern that finds a column declaration: `t.`, the type, the quoted
/// name and, after a comma and white space, the options. The type is the
/// first group, the name the second, the options the fourth.
pub const COLUMN_PATTERN: &'static str = "t\\.(\\w+)\\s+\"(\\w+)\"(,\\s+(.+))?";

/// The characters of [`TABLE_PATTERN`].
pub open spec fn table_pattern() -> Seq<char> {
    TABLE_PATTERN@
}

/// The characters of [`COLUMN_PATTERN`].
pub open spec fn column_pattern() -> Seq<char> {
    COLUMN_PATTERN@
}

/// A pattern that could not be compiled, with the reason given.
#[derive(Debug, PartialEq, Eq)]
pub struct PatternError {
    pub pattern: String,
    pub message: String,
}

/// A line of a schema description, by what it declares.
#[derive(Debug, PartialEq, Eq)]
pub enum Line {
    /// Opens the table `name`: the columns that follow belong to it.
    Table { name: String },
    /// Declares a column of the table that is open.
    Column { kind: String, name: String, options: String },
    /// Declares nothing that the model holds.
    Other,
}

/// The mathematical value of a [`Line`].
pub ghost enum LineView {
    Table { name: Seq<char> },
    Column { kind: Seq<char>, name: Seq<char>, options: Seq<char> },
    Other,
}

impl View for Line {
    type V = LineView;

    open spec fn view(&self) -> LineView {
        match self {
            Line::Table { name } => LineView::Table { name: name@ },
            Line::Column { kind, name, options } => LineView::Column {
                kind: kind@,
                name: name@,
                options: options@,
            },
            Line::Other => LineView::Other,
        }
    }
}

impl DeepView for Line {
    type V = LineView;

    open spec fn deep_view(&self) -> LineView {
        self@
    }
}

/// The text of group `i`, or the empty text where the search has no such
/// group or the group took no part in the match.
pub open spec fn group_text(groups: Seq<Option<Seq<char>>>, i: int) -> Seq<char> {
    if 0 <= i < groups.len() && groups[i] is Some {
        groups[i]->0
    } else {
        Seq::empty()
    }
}

/// What a line declares, given what the table pattern and the column pattern
/// found in it. The table pattern is asked first: a line in which it matches
/// is a table declaration whatever the column pattern finds.
pub open spec fn classify_groups(table: Groups, column: Groups) -> LineView {
    match table {
        Some(groups) => LineView::Table { name: group_text(groups, 1) },
        None => match column {
            Some(groups) => LineView::Column {
                kind: group_text(groups, 1),
                name: group_text(groups, 2),
                options: group_text(groups, 4),
            },
            None => LineView::Other,
        },
    }
}

/// What the line `text` declares.
pub open spec fn line_of(text: Seq<char>) -> LineView {
    classify_groups(
        regex_captures(table_pattern(), text),
        regex_captures(column_pattern(), text),
    )
}

/// What each of `lines` declares.
pub open spec fn lines_of(lines: Seq<Seq<char>>) -> Seq<LineView> {
    lines.map_values(|text: Seq<char>| line_of(text))
}

fn group_string(groups: &Vec<Option<String>>, i: usize) -> (text: String)
    ensures
        text@ == group_text(groups.deep_view(), i as int),
{
    if i < groups.len() {
        match &groups[i] {
            Some(found) => found.clone(),
            None => String::new(),
        }
    } else {
        String::new()
    }
}

/// Classifies a line by the outcome of the two searches made in it.
pub fn classify(table: &Option<Vec<Option<String>>>, column: &Option<Vec<Option<String>>>) -> (line:
    Line)
    ensures
        line@ == classify_groups(table.deep_view(), column.deep_view()),
{
    match table {
        Some(groups) => Line::Table { name: group_string(groups, 1) },
        None => match column {
            Some(groups) => Line::Column {
                kind: group_string(groups, 1),
                name: group_string(groups, 2),
                options: group_string(groups, 4),
            },
            None => Line::Other,
        },
    }
}

/// Searches each of `texts` for the leftmost match of the regular
/// expression `pattern`, which is compiled once, and returns for each text
/// the groups of the match, the whole match first, or `None` where the
/// expression matches nowhere in it. It fails exactly where the engine does
/// not accept `pattern`, and then hands back the pattern with the engine's
/// reason.
pub fn search_each(pattern: &str, texts: &Vec<String>) -> (found: Result<
    Vec<Option<Vec<Option<String>>>>,
    PatternError,
>)
    ensures
        (found is Ok) == regex_accepts(pattern@),
        match found {
            Ok(each) => {
                &&& each.len() == texts.len()
                &&& forall|i: int|
                    0 <= i < texts.len() ==> (#[trigger] each[i]).deep_view() == regex_captures(
                        pattern@,
                        texts[i]@,
                    )
            },
            Err(refused) => refused.pattern@ == pattern@,
        },
{
    match captures_each(pattern, texts) {
        Ok(each) => Ok(each),
        Err(error) => Err(
            PatternError { pattern: String::from_str(pattern), message: refusal_text(&error) },
        ),
    }
}

/// The pattern that a reading fails on: the table pattern where the engine
/// does not accept it, else the column pattern.
pub open spec fn refused_pattern() -> Seq<char> {
    if !regex_accepts(table_pattern()) {
        table_pattern()
    } else {
        column_pattern()
    }
}

/// Searches each of `texts` for a table declaration and for a column
/// declaration, and classifies it by what was found. Whatever the texts
/// hold, it succeeds exactly where the regular-expression engine accepts the
/// two patterns; where it does not, the failure names the first of the two
/// that the engine did not accept.
pub fn classify_each(texts: &Vec<String>) -> (outcome: Result<Vec<Line>, PatternError>)
    ensures
        (outcome is Ok) == (regex_accepts(table_pattern()) && regex_accepts(column_pattern())),
        match outcome {
            Ok(lines) => lines.deep_view() == lines_of(texts.deep_view()),
            Err(refused) => refused.pattern@ == refused_pattern(),
        },
{
    let tables = search_each(TABLE_PATTERN, texts)?;
    let columns = search_each(COLUMN_PATTERN, texts)?;
    let mut lines: Vec<Line> = Vec::new();
    let mut i: usize = 0;
    while i < texts.len()
        invariant
            i <= texts.len(),
            tables.len() == texts.len(),
            columns.len() == texts.len(),
            forall|k: int|
                0 <= k < texts.len() ==> (#[trigger] tables[k]).deep_view() == regex_captures(
                    table_pattern(),
                    texts[k]@,
                ),
            forall|k: int|
                0 <= k < texts.len() ==> (#[trigger] columns[k]).deep_view() == regex_captures(
                    column_pattern(),
                    texts[k]@,
                ),
            lines.deep_view() == lines_of(texts.deep_view()).take(i as int),
        decreases texts.len() - i,
    {
        let line = classify(&tables[i], &columns[i]);
        assert(line@ == lines_of(texts.deep_view())[i as int]);
        let ghost before = lines.deep_view();
        lines.push(line);
        assert(lines.deep_view() =~= before.push(line@));
        i += 1;
    }
    assert(lines.deep_view() =~= lines_of(texts.deep_view()));
    Ok(lines)
}

} // verus!
