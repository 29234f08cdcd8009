//! `INSERT INTO <table> VALUES ( <value> [, <value>]* )`

use crate::parser::parse::character;
use crate::parser::parse::comma_sep;
use crate::parser::parse::identifier;
use crate::parser::parse::keywords;
use crate::parser::parse::multispace1;
use crate::parser::parse::outcome;
use crate::parser::parse::parse_comma_sep;
use crate::parser::parse::tag_no_case;
use crate::parser::parse::Outcome;
use crate::parser::parse::Parse;
use crate::parser::parse::ParseResult;
use crate::parser::source::Source;
use crate::parser::value::Value;
use crate::parser::value::ValueView;
use vstd::prelude::*;

verus! {

/// The table to insert into and the values of the new row, in the order of
/// the table's columns.
#[derive(Debug, Clone, PartialEq, Eq, Hash)]
pub struct InsertStatement {
    pub table: String,
    pub values: Vec<Value>,
}

/// The mathematical value of an [`InsertStatement`].
pub ghost struct InsertStatementView {
    pub table: Seq<char>,
    pub values: Seq<ValueView>,
}

impl DeepView for InsertStatement {
    type V = InsertStatementView;

    open spec fn deep_view(&self) -> InsertStatementView {
        InsertStatementView { table: self.table@, values: self.values.deep_view() }
    }
}

impl View for InsertStatement {
    type V = InsertStatementView;

    open spec fn view(&self) -> InsertStatementView {
        self.deep_view()
    }
}

/// `VALUES ( <values> )`, outside any checkpoint of its own.
pub open spec fn value_list(text: Seq<char>, pos: int) -> Outcome<Seq<ValueView>> {
    match tag_no_case(text, pos, "values") {
        Outcome::Done { next, .. } => match multispace1(text, next) {
            Outcome::Done { next, .. } => match character(text, next, '(') {
                Outcome::Done { next, .. } => match comma_sep::<Value>(text, next) {
                    Outcome::Done { next, value: values } => character(text, next, ')').with(
                        values,
                    ),
                    other => other,
                },
                other => other.fail(),
            },
            other => other.fail(),
        },
        other => other.fail(),
    }
}

/// `INSERT INTO <table> VALUES ( <values> )`, outside any checkpoint of its
/// own.
pub open spec fn insertion(text: Seq<char>, pos: int) -> Outcome<InsertStatementView> {
    match keywords(text, pos, "insert", "into") {
        Outcome::Done { next: start, .. } => match identifier(text, start).in_context(
            text,
            start,
            "Table Name",
        ) {
            Outcome::Done { next, value: table } => match multispace1(text, next) {
                Outcome::Done { next: start, .. } => match value_list(text, start).in_context(
                    text,
                    start,
                    "Values",
                ) {
                    Outcome::Done { next, value: values } => Outcome::Done {
                        next,
                        value: InsertStatementView { table, values },
                    },
                    other => other.fail(),
                },
                other => other.fail(),
            },
            other => other.fail(),
        },
        other => other.fail(),
    }
}

/// `INSERT INTO <table> VALUES ( <values> )`
pub open spec fn insert_statement(text: Seq<char>, pos: int) -> Outcome<InsertStatementView> {
    insertion(text, pos).in_context(text, pos, "Insert Statement")
}

/// Reads `VALUES ( <values> )` at `pos`.
fn parse_value_list(source: &Source, pos: usize) -> (result: ParseResult<Vec<Value>>)
    requires
        pos <= source@.len(),
    ensures
        outcome(result) == value_list(source@, pos as int),
        outcome(result).sound(source@, pos as int),
{
    let (next, _) = source.tag_no_case(pos, "values")?;
    let (next, _) = source.multispace1(next)?;
    let (next, _) = source.character(next, '(')?;
    let (next, values) = parse_comma_sep::<Value>(source, next)?;
    let (next, _) = source.character(next, ')')?;
    Ok((next, values))
}

/// Reads an insertion at `pos`.
fn parse_insertion(source: &Source, pos: usize) -> (result: ParseResult<InsertStatement>)
    requires
        pos <= source@.len(),
    ensures
        outcome(result) == insertion(source@, pos as int),
        outcome(result).sound(source@, pos as int),
{
    let (start, _) = source.keywords(pos, "insert", "into")?;
    let (next, table) = source.in_context(source.identifier(start), start, "Table Name")?;
    let (start, _) = source.multispace1(next)?;
    let (next, values) = source.in_context(parse_value_list(source, start), start, "Values")?;
    Ok((next, InsertStatement { table, values }))
}

impl Parse for InsertStatement {
    open spec fn grammar(text: Seq<char>, pos: int) -> Outcome<InsertStatementView> {
        insert_statement(text, pos)
    }

    fn parse(source: &Source, pos: usize) -> (result: ParseResult<InsertStatement>) {
        assert(Self::grammar(source@, pos as int) == insert_statement(source@, pos as int));
        source.in_context(parse_insertion(source, pos), pos, "Insert Statement")
    }
}

} // verus!
