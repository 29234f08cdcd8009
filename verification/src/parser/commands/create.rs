//! `CREATE TABLE <table> ( <column> <type> [, <column> <type>]* )`

use crate::parser::error::ErrorTree;
use crate::parser::error::Tree;
use crate::parser::parse::character;
use crate::parser::parse::comma_sep;
use crate::parser::parse::identifier;
use crate::parser::parse::keywords;
use crate::parser::parse::multispace1;
use crate::parser::parse::outcome;
use crate::parser::parse::parse_comma_sep;
use crate::parser::source::run_end;
use crate::parser::parse::tag_no_case;
use crate::parser::source::CharClass;
use crate::parser::parse::Outcome;
use crate::parser::parse::Parse;
use crate::parser::parse::ParseErr;
use crate::parser::parse::ParseResult;
use crate::parser::source::Source;
use vstd::prelude::*;

verus! {

/// The type of a column.
#[derive(Debug, Clone, Copy, PartialEq, Eq, Hash)]
pub enum SqlTypeInfo {
    String,
    Int,
}

impl DeepView for SqlTypeInfo {
    type V = SqlTypeInfo;

    open spec fn deep_view(&self) -> SqlTypeInfo {
        *self
    }
}

impl SqlTypeInfo {
    /// The name of the type.
    pub fn name(&self) -> (name: &'static str)
        ensures
            name == match self {
                SqlTypeInfo::String => "String",
                SqlTypeInfo::Int => "Int",
            },
    {
        match self {
            SqlTypeInfo::String => "String",
            SqlTypeInfo::Int => "Int",
        }
    }
}

/// The name of a column type: `string` or `int`, in any letter case.
pub open spec fn column_type(text: Seq<char>, pos: int) -> Outcome<SqlTypeInfo> {
    let choice = match tag_no_case(text, pos, "string") {
        Outcome::Error(first) => match tag_no_case(text, pos, "int") {
            Outcome::Error(second) => Outcome::Error(Tree::Alt(seq![first, second])),
            other => other.with(SqlTypeInfo::Int),
        },
        other => other.with(SqlTypeInfo::String),
    };
    choice.in_context(text, pos, "Column Type")
}

impl Parse for SqlTypeInfo {
    open spec fn grammar(text: Seq<char>, pos: int) -> Outcome<SqlTypeInfo> {
        column_type(text, pos)
    }

    fn parse(source: &Source, pos: usize) -> (result: ParseResult<SqlTypeInfo>) {
        assert(Self::grammar(source@, pos as int) == column_type(source@, pos as int));
        let choice = match source.tag_no_case(pos, "string") {
            Ok((next, _)) => Ok((next, SqlTypeInfo::String)),
            Err(ParseErr::Error(first)) => match source.tag_no_case(pos, "int") {
                Ok((next, _)) => Ok((next, SqlTypeInfo::Int)),
                Err(ParseErr::Error(second)) => Err(
                    ParseErr::Error(ErrorTree::neither(first, second)),
                ),
                Err(failure) => Err(failure),
            },
            Err(failure) => Err(failure),
        };
        source.in_context(choice, pos, "Column Type")
    }
}

/// One field of a table schema.
#[derive(Debug, PartialEq, Eq, Hash)]
pub struct Column {
    pub name: String,
    pub type_info: SqlTypeInfo,
}

/// The mathematical value of a [`Column`].
pub ghost struct ColumnView {
    pub name: Seq<char>,
    pub type_info: SqlTypeInfo,
}

impl DeepView for Column {
    type V = ColumnView;

    open spec fn deep_view(&self) -> ColumnView {
        ColumnView { name: self.name@, type_info: self.type_info }
    }
}

impl View for Column {
    type V = ColumnView;

    open spec fn view(&self) -> ColumnView {
        self.deep_view()
    }
}

impl Clone for Column {
    fn clone(&self) -> (copy: Column)
        ensures
            copy == *self,
    {
        Column { name: self.name.clone(), type_info: self.type_info }
    }
}

/// `<name> <type>`, outside any checkpoint of its own.
pub open spec fn definition(text: Seq<char>, pos: int) -> Outcome<ColumnView> {
    match identifier(text, pos).in_context(text, pos, "Column Name") {
        Outcome::Done { next, value: name } => match multispace1(text, next) {
            Outcome::Done { next, .. } => match column_type(text, next) {
                Outcome::Done { next, value: type_info } => Outcome::Done {
                    next,
                    value: ColumnView { name, type_info },
                },
                other => other.fail(),
            },
            other => other.fail(),
        },
        other => other.fail(),
    }
}

/// A column definition: `<name> <type>`.
pub open spec fn column(text: Seq<char>, pos: int) -> Outcome<ColumnView> {
    definition(text, pos).in_context(text, pos, "Create Column")
}

/// Reads `<name> <type>` at `pos`.
fn parse_definition(source: &Source, pos: usize) -> (result: ParseResult<Column>)
    requires
        pos <= source@.len(),
    ensures
        outcome(result) == definition(source@, pos as int),
        outcome(result).sound(source@, pos as int),
{
    let (next, name) = source.in_context(source.identifier(pos), pos, "Column Name")?;
    let (next, _) = source.multispace1(next)?;
    let (next, type_info) = SqlTypeInfo::parse(source, next)?;
    Ok((next, Column { name, type_info }))
}

impl Parse for Column {
    open spec fn grammar(text: Seq<char>, pos: int) -> Outcome<ColumnView> {
        column(text, pos)
    }

    fn parse(source: &Source, pos: usize) -> (result: ParseResult<Column>) {
        assert(Self::grammar(source@, pos as int) == column(source@, pos as int));
        source.in_context(parse_definition(source, pos), pos, "Create Column")
    }
}

/// The table to create and its columns.
#[derive(Debug, Clone, Default, PartialEq, Eq, Hash)]
pub struct CreateStatement {
    pub table: String,
    pub columns: Vec<Column>,
}

/// The mathematical value of a [`CreateStatement`].
pub ghost struct CreateStatementView {
    pub table: Seq<char>,
    pub columns: Seq<ColumnView>,
}

impl DeepView for CreateStatement {
    type V = CreateStatementView;

    open spec fn deep_view(&self) -> CreateStatementView {
        CreateStatementView { table: self.table@, columns: self.columns.deep_view() }
    }
}

impl View for CreateStatement {
    type V = CreateStatementView;

    open spec fn view(&self) -> CreateStatementView {
        self.deep_view()
    }
}

/// `( <column> [, <column>]* )`, outside any checkpoint of its own.
pub open spec fn column_list(text: Seq<char>, pos: int) -> Outcome<Seq<ColumnView>> {
    match character(text, pos, '(') {
        Outcome::Done { next, .. } => match comma_sep::<Column>(
            text,
            run_end(text, next, CharClass::Whitespace),
        ) {
            Outcome::Done { next, value: columns } => character(
                text,
                run_end(text, next, CharClass::Whitespace),
                ')',
            ).with(columns),
            other => other,
        },
        other => other.fail(),
    }
}

/// A list of column definitions in parentheses.
pub open spec fn column_definitions(text: Seq<char>, pos: int) -> Outcome<Seq<ColumnView>> {
    column_list(text, pos).in_context(text, pos, "Column Definitions")
}

/// Reads `( <column> [, <column>]* )` at `pos`.
fn parse_column_list(source: &Source, pos: usize) -> (result: ParseResult<Vec<Column>>)
    requires
        pos <= source@.len(),
    ensures
        outcome(result) == column_list(source@, pos as int),
        outcome(result).sound(source@, pos as int),
{
    let (next, _) = source.character(pos, '(')?;
    let (next, columns) = parse_comma_sep::<Column>(source, source.multispace0(next))?;
    let (next, _) = source.character(source.multispace0(next), ')')?;
    Ok((next, columns))
}

/// Reads a list of column definitions in parentheses at `pos`.
fn parse_column_definitions(source: &Source, pos: usize) -> (result: ParseResult<Vec<Column>>)
    requires
        pos <= source@.len(),
    ensures
        outcome(result) == column_definitions(source@, pos as int),
        outcome(result).sound(source@, pos as int),
{
    source.in_context(parse_column_list(source, pos), pos, "Column Definitions")
}

/// `CREATE TABLE <table> <column definitions>`, outside any checkpoint of its
/// own.
pub open spec fn creation(text: Seq<char>, pos: int) -> Outcome<CreateStatementView> {
    match keywords(text, pos, "create", "table") {
        Outcome::Done { next: start, .. } => match identifier(text, start).in_context(
            text,
            start,
            "Table Name",
        ) {
            Outcome::Done { next, value: table } => match multispace1(text, next) {
                Outcome::Done { next, .. } => match column_definitions(text, next) {
                    Outcome::Done { next, value: columns } => Outcome::Done {
                        next,
                        value: CreateStatementView { table, columns },
                    },
                    other => other.fail(),
                },
                other => other.fail(),
            },
            other => other.fail(),
        },
        other => other.fail(),
    }
}

/// `CREATE TABLE <table> <column definitions>`
pub open spec fn create_statement(text: Seq<char>, pos: int) -> Outcome<CreateStatementView> {
    creation(text, pos).in_context(text, pos, "Create Table")
}

/// Reads a creation at `pos`.
fn parse_creation(source: &Source, pos: usize) -> (result: ParseResult<CreateStatement>)
    requires
        pos <= source@.len(),
    ensures
        outcome(result) == creation(source@, pos as int),
        outcome(result).sound(source@, pos as int),
{
    let (start, _) = source.keywords(pos, "create", "table")?;
    let (next, table) = source.in_context(source.identifier(start), start, "Table Name")?;
    let (next, _) = source.multispace1(next)?;
    let (next, columns) = parse_column_definitions(source, next)?;
    Ok((next, CreateStatement { table, columns }))
}

impl Parse for CreateStatement {
    open spec fn grammar(text: Seq<char>, pos: int) -> Outcome<CreateStatementView> {
        create_statement(text, pos)
    }

    fn parse(source: &Source, pos: usize) -> (result: ParseResult<CreateStatement>) {
        assert(Self::grammar(source@, pos as int) == create_statement(source@, pos as int));
        source.in_context(parse_creation(source, pos), pos, "Create Table")
    }
}

} // verus!
