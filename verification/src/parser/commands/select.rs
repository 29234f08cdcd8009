//! `SELECT <column> [, <column>]* FROM <table>`

use crate::parser::parse::comma_sep;
use crate::parser::parse::identifier;
use crate::parser::parse::multispace1;
use crate::parser::parse::outcome;
use crate::parser::parse::parse_comma_sep;
use crate::parser::parse::tag_no_case;
use crate::parser::parse::Outcome;
use crate::parser::parse::Parse;
use crate::parser::parse::ParseResult;
use crate::parser::source::Source;
use vstd::prelude::*;
use vstd::string::StringExecFns;

verus! {

/// The table to read and the columns wanted of it, in the order wanted.
#[derive(Debug, Clone, Default, PartialEq, Eq, Hash)]
pub struct SelectStatement {
    pub table: String,
    pub fields: Vec<String>,
}

/// The mathematical value of a [`SelectStatement`].
pub ghost struct SelectStatementView {
    pub table: Seq<char>,
    pub fields: Seq<Seq<char>>,
}

impl DeepView for SelectStatement {
    type V = SelectStatementView;

    open spec fn deep_view(&self) -> SelectStatementView {
        SelectStatementView { table: self.table@, fields: self.fields.deep_view() }
    }
}

impl View for SelectStatement {
    type V = SelectStatementView;

    open spec fn view(&self) -> SelectStatementView {
        self.deep_view()
    }
}

/// The first `count` of `names`, each but the first behind `", "`.
pub open spec fn joined(names: Seq<Seq<char>>, count: int) -> Seq<char>
    decreases count,
{
    if count <= 0 {
        Seq::empty()
    } else if count == 1 {
        names[0]
    } else {
        joined(names, count - 1) + ", "@ + names[count - 1]
    }
}

/// The statement as SQL text, without the closing semicolon.
pub open spec fn select_text(statement: SelectStatementView) -> Seq<char> {
    "SELECT "@ + joined(statement.fields, statement.fields.len() as int) + " FROM "@
        + statement.table
}

impl SelectStatement {
    /// The statement as SQL text, without the closing semicolon.
    pub fn to_string(&self) -> (text: String)
        ensures
            text@ == select_text(self@),
    {
        let mut text = String::from_str("SELECT ");
        let ghost head = text@;
        let ghost names = self.fields.deep_view();
        let mut i: usize = 0;
        while i < self.fields.len()
            invariant
                0 <= i <= self.fields.len(),
                names == self.fields.deep_view(),
                head == "SELECT "@,
                text@ == head + joined(names, i as int),
            decreases self.fields.len() - i,
        {
            if i > 0 {
                text.append(", ");
            }
            text.append(self.fields[i].as_str());
            proof {
                assert(names[i as int] == self.fields[i as int]@);
                if i == 0 {
                    assert(text@ =~= head + joined(names, 1));
                } else {
                    assert(text@ =~= head + joined(names, i + 1));
                }
            }
            i += 1;
        }
        text.append(" FROM ");
        text.append(self.table.as_str());
        text
    }
}

/// `SELECT <columns> FROM <table>`, outside any checkpoint of its own.
pub open spec fn selection(text: Seq<char>, pos: int) -> Outcome<SelectStatementView> {
    match tag_no_case(text, pos, "select") {
        Outcome::Done { next, .. } => match multispace1(text, next) {
            Outcome::Done { next: start, .. } => match comma_sep::<String>(
                text,
                start,
            ).in_context(text, start, "Select Columns") {
                Outcome::Done { next, value: fields } => match multispace1(text, next) {
                    Outcome::Done { next, .. } => match tag_no_case(text, next, "from") {
                        Outcome::Done { next, .. } => match multispace1(text, next) {
                            Outcome::Done { next: start, .. } => match identifier(
                                text,
                                start,
                            ).in_context(text, start, "Table Name") {
                                Outcome::Done { next, value: table } => Outcome::Done {
                                    next,
                                    value: SelectStatementView { table, fields },
                                },
                                other => other.fail(),
                            },
                            other => other.fail(),
                        },
                        other => other.fail(),
                    },
                    other => other.fail(),
                },
                other => other.fail(),
            },
            other => other.fail(),
        },
        other => other.fail(),
    }
}

/// `SELECT <columns> FROM <table>`
pub open spec fn select_statement(text: Seq<char>, pos: int) -> Outcome<SelectStatementView> {
    selection(text, pos).in_context(text, pos, "Select statement")
}

/// Reads a selection at `pos`.
fn parse_selection(source: &Source, pos: usize) -> (result: ParseResult<SelectStatement>)
    requires
        pos <= source@.len(),
    ensures
        outcome(result) == selection(source@, pos as int),
        outcome(result).sound(source@, pos as int),
{
    let (next, _) = source.tag_no_case(pos, "select")?;
    let (start, _) = source.multispace1(next)?;
    let (next, fields) = source.in_context(
        parse_comma_sep::<String>(source, start),
        start,
        "Select Columns",
    )?;
    let (next, _) = source.multispace1(next)?;
    let (next, _) = source.tag_no_case(next, "from")?;
    let (start, _) = source.multispace1(next)?;
    let (next, table) = source.in_context(source.identifier(start), start, "Table Name")?;
    Ok((next, SelectStatement { table, fields }))
}

impl Parse for SelectStatement {
    open spec fn grammar(text: Seq<char>, pos: int) -> Outcome<SelectStatementView> {
        select_statement(text, pos)
    }

    fn parse(source: &Source, pos: usize) -> (result: ParseResult<SelectStatement>) {
        assert(Self::grammar(source@, pos as int) == select_statement(source@, pos as int));
        source.in_context(parse_selection(source, pos), pos, "Select statement")
    }
}

} // verus!
