//! The statement tree, and the parsers of one statement and of a batch.

use crate::parser::commands::create::create_statement;
use crate::parser::commands::create::CreateStatement;
use crate::parser::commands::create::CreateStatementView;
use crate::parser::commands::insert::insert_statement;
use crate::parser::commands::insert::InsertStatement;
use crate::parser::commands::insert::InsertStatementView;
use crate::parser::commands::select::select_statement;
use crate::parser::commands::select::SelectStatement;
use crate::parser::commands::select::SelectStatementView;
use crate::parser::error::BaseErrorKind;
use crate::parser::error::ErrorKind;
use crate::parser::error::ErrorTree;
use crate::parser::error::FormattedError;
use crate::parser::error::StackContext;
use crate::parser::error::Tree;
use crate::parser::parse::add_context;
use crate::parser::source::byte_offset;
use crate::parser::parse::character;
use crate::parser::parse::eof;
use crate::parser::parse::leaf;
use crate::parser::parse::outcome;
use crate::parser::parse::push_frame;
use crate::parser::parse::read;
use crate::parser::parse::reading;
use crate::parser::source::run_end;
use crate::parser::source::CharClass;
use crate::parser::parse::Outcome;
use crate::parser::parse::Parse;
use crate::parser::parse::ParseErr;
use crate::parser::parse::ParseResult;
use crate::parser::source::Source;
use vstd::prelude::*;
use vstd::std_specs::convert::TryFromSpecImpl;

verus! {

/// One parsed statement.
#[derive(Debug, Clone, PartialEq, Eq, Hash)]
pub enum SqlQuery {
    Select(SelectStatement),
    Insert(InsertStatement),
    Create(CreateStatement),
}

/// The mathematical value of a [`SqlQuery`].
pub ghost enum SqlQueryView {
    Select(SelectStatementView),
    Insert(InsertStatementView),
    Create(CreateStatementView),
}

impl DeepView for SqlQuery {
    type V = SqlQueryView;

    open spec fn deep_view(&self) -> SqlQueryView {
        match self {
            SqlQuery::Select(statement) => SqlQueryView::Select(statement@),
            SqlQuery::Insert(statement) => SqlQueryView::Insert(statement@),
            SqlQuery::Create(statement) => SqlQueryView::Create(statement@),
        }
    }
}

impl View for SqlQuery {
    type V = SqlQueryView;

    open spec fn view(&self) -> SqlQueryView {
        self.deep_view()
    }
}

/// A statement of any of the three kinds: the first of select, insert and
/// create that matches. Where none does, the failure holds those of all three,
/// in that order.
pub open spec fn any_statement(text: Seq<char>, pos: int) -> Outcome<SqlQueryView> {
    match select_statement(text, pos) {
        Outcome::Done { next, value } => Outcome::Done { next, value: SqlQueryView::Select(value) },
        Outcome::Failure(tree) => Outcome::Failure(tree),
        Outcome::Error(first) => match insert_statement(text, pos) {
            Outcome::Done { next, value } => Outcome::Done {
                next,
                value: SqlQueryView::Insert(value),
            },
            Outcome::Failure(tree) => Outcome::Failure(tree),
            Outcome::Error(second) => match create_statement(text, pos) {
                Outcome::Done { next, value } => Outcome::Done {
                    next,
                    value: SqlQueryView::Create(value),
                },
                Outcome::Failure(tree) => Outcome::Failure(tree),
                Outcome::Error(third) => Outcome::Error(Tree::Alt(seq![first, second, third])),
            },
        },
    }
}

/// A statement and its closing semicolon, with any whitespace before the
/// statement, before the semicolon and after it; outside any checkpoint of its
/// own.
pub open spec fn terminated_statement(text: Seq<char>, pos: int) -> Outcome<SqlQueryView> {
    match any_statement(text, run_end(text, pos, CharClass::Whitespace)) {
        Outcome::Done { next, value } => match character(
            text,
            run_end(text, next, CharClass::Whitespace),
            ';',
        ) {
            Outcome::Done { next, .. } => Outcome::Done {
                next: run_end(text, next, CharClass::Whitespace),
                value,
            },
            other => other.fail(),
        },
        other => other,
    }
}

/// One statement with its closing semicolon.
pub open spec fn query(text: Seq<char>, pos: int) -> Outcome<SqlQueryView> {
    terminated_statement(text, pos).in_context(text, pos, "Query")
}

/// Reads a statement of any of the three kinds at `pos`.
fn parse_any_statement(source: &Source, pos: usize) -> (result: ParseResult<SqlQuery>)
    requires
        pos <= source@.len(),
    ensures
        outcome(result) == any_statement(source@, pos as int),
        outcome(result).sound(source@, pos as int),
{
    let first = match SelectStatement::parse(source, pos) {
        Ok((next, statement)) => {
            return Ok((next, SqlQuery::Select(statement)));
        },
        Err(ParseErr::Failure(tree)) => {
            return Err(ParseErr::Failure(tree));
        },
        Err(ParseErr::Error(tree)) => tree,
    };
    let second = match InsertStatement::parse(source, pos) {
        Ok((next, statement)) => {
            return Ok((next, SqlQuery::Insert(statement)));
        },
        Err(ParseErr::Failure(tree)) => {
            return Err(ParseErr::Failure(tree));
        },
        Err(ParseErr::Error(tree)) => tree,
    };
    match CreateStatement::parse(source, pos) {
        Ok((next, statement)) => Ok((next, SqlQuery::Create(statement))),
        Err(ParseErr::Failure(tree)) => Err(ParseErr::Failure(tree)),
        Err(ParseErr::Error(third)) => Err(
            ParseErr::Error(ErrorTree::none_of(first, second, third)),
        ),
    }
}

/// Reads a statement and its closing semicolon at `pos`.
fn parse_terminated_statement(source: &Source, pos: usize) -> (result: ParseResult<SqlQuery>)
    requires
        pos <= source@.len(),
    ensures
        outcome(result) == terminated_statement(source@, pos as int),
        outcome(result).sound(source@, pos as int),
{
    let (next, statement) = parse_any_statement(source, source.multispace0(pos))?;
    let (next, _) = source.character(source.multispace0(next), ';')?;
    Ok((source.multispace0(next), statement))
}

impl Parse for SqlQuery {
    open spec fn grammar(text: Seq<char>, pos: int) -> Outcome<SqlQueryView> {
        query(text, pos)
    }

    fn parse(source: &Source, pos: usize) -> (result: ParseResult<SqlQuery>) {
        assert(Self::grammar(source@, pos as int) == query(source@, pos as int));
        source.in_context(parse_terminated_statement(source, pos), pos, "Query")
    }
}

/// The rest of a batch of which the statements `found` have been read up to
/// `pos`: as many further statements as can be read.
pub open spec fn more_queries(text: Seq<char>, pos: int, found: Seq<SqlQueryView>) -> Outcome<
    Seq<SqlQueryView>,
>
    decreases text.len() - pos,
{
    match query(text, pos) {
        Outcome::Done { next, value } => if pos < next <= text.len() {
            more_queries(text, next, found.push(value))
        } else {
            Outcome::Error(leaf(text, pos, BaseErrorKind::Kind(ErrorKind::Many1)))
        },
        Outcome::Error(_) => Outcome::Done { next: pos, value: found },
        Outcome::Failure(tree) => Outcome::Failure(tree),
    }
}

/// One or more statements, one behind the other.
pub open spec fn some_queries(text: Seq<char>, pos: int) -> Outcome<Seq<SqlQueryView>> {
    match query(text, pos) {
        Outcome::Done { next, value } => more_queries(text, next, seq![value]),
        Outcome::Error(tree) => Outcome::Error(
            push_frame(
                tree,
                (byte_offset(text, pos) as usize, StackContext::Kind(ErrorKind::Many1)),
            ),
        ),
        Outcome::Failure(tree) => Outcome::Failure(tree),
    }
}

/// A batch: one or more statements that reach the end of the text.
pub open spec fn batch(text: Seq<char>, pos: int) -> Outcome<Seq<SqlQueryView>> {
    match some_queries(text, pos) {
        Outcome::Done { next, value } => eof(text, next).with(value),
        other => other,
    }
}

/// A batch that is read holds at least one statement and reaches the end of
/// the text.
pub proof fn lemma_batch_is_not_empty(text: Seq<char>, pos: int)
    ensures
        batch(text, pos) matches Outcome::Done { next, value } ==> value.len() >= 1 && next
            == text.len(),
{
    if let Outcome::Done { next, value } = query(text, pos) {
        lemma_more_queries_keeps(text, next, seq![value]);
    }
}

/// Reading on never loses a statement that was found.
proof fn lemma_more_queries_keeps(text: Seq<char>, pos: int, found: Seq<SqlQueryView>)
    ensures
        more_queries(text, pos, found) matches Outcome::Done { value, .. } ==> value.len()
            >= found.len(),
    decreases text.len() - pos,
{
    if let Outcome::Done { next, value } = query(text, pos) {
        if pos < next <= text.len() {
            lemma_more_queries_keeps(text, next, found.push(value));
        }
    }
}

/// Reads one or more statements at `pos`.
fn parse_some_queries(source: &Source, pos: usize) -> (result: ParseResult<Vec<SqlQuery>>)
    requires
        pos <= source@.len(),
    ensures
        outcome(result) == some_queries(source@, pos as int),
        outcome(result).sound(source@, pos as int),
{
    let (first_end, first) = match SqlQuery::parse(source, pos) {
        Ok(done) => done,
        Err(ParseErr::Error(tree)) => {
            return Err(
                ParseErr::Error(
                    add_context(tree, source.offset(pos), StackContext::Kind(ErrorKind::Many1)),
                ),
            );
        },
        Err(failure) => {
            return Err(failure);
        },
    };
    let mut queries: Vec<SqlQuery> = Vec::new();
    queries.push(first);
    let mut end = first_end;
    assert(queries.deep_view() =~= seq![first.deep_view()]);
    loop
        invariant
            pos <= end <= source@.len(),
            some_queries(source@, pos as int) == more_queries(
                source@,
                end as int,
                queries.deep_view(),
            ),
        decreases source@.len() - end,
    {
        match SqlQuery::parse(source, end) {
            Ok((next, query)) => {
                if next == end {
                    return source.error(end, BaseErrorKind::Kind(ErrorKind::Many1));
                }
                let ghost before = queries.deep_view();
                queries.push(query);
                assert(queries.deep_view() =~= before.push(query.deep_view()));
                end = next;
            },
            Err(ParseErr::Error(_)) => {
                return Ok((end, queries));
            },
            Err(failure) => {
                return Err(failure);
            },
        }
    }
}

impl Parse for Vec<SqlQuery> {
    open spec fn grammar(text: Seq<char>, pos: int) -> Outcome<Seq<SqlQueryView>> {
        batch(text, pos)
    }

    fn parse(source: &Source, pos: usize) -> (result: ParseResult<Vec<SqlQuery>>) {
        assert(Self::grammar(source@, pos as int) == batch(source@, pos as int));
        let (next, queries) = parse_some_queries(source, pos)?;
        let (next, _) = source.eof(next)?;
        Ok((next, queries))
    }
}

impl<'a> TryFrom<&'a str> for SqlQuery {
    type Error = FormattedError<'a>;

    /// Reads `value` as one statement with its closing semicolon.
    fn try_from(value: &'a str) -> (result: Result<SqlQuery, FormattedError<'a>>)
        ensures
            read(result) == reading(value@, query(value@, 0)),
    {
        SqlQuery::parse_format_error(value)
    }
}

/// The conversion is specified by the contract of `try_from` itself: its
/// result holds owned strings, of which only the views are determined.
impl<'a> TryFromSpecImpl<&'a str> for SqlQuery {
    open spec fn obeys_try_from_spec() -> bool {
        false
    }

    open spec fn try_from_spec(value: &'a str) -> Result<SqlQuery, FormattedError<'a>> {
        arbitrary()
    }
}

/// Reads `input` as one statement with its closing semicolon.
pub fn parse_sql_query(input: &str) -> (result: Result<SqlQuery, FormattedError<'_>>)
    ensures
        read(result) == reading(input@, query(input@, 0)),
{
    SqlQuery::try_from(input)
}

/// Reads `input` as a batch of one or more statements.
pub fn parse_multiple_queries(input: &str) -> (result: Result<Vec<SqlQuery>, FormattedError<'_>>)
    ensures
        read(result) == reading(input@, batch(input@, 0)),
        result matches Ok(queries) ==> queries.len() >= 1,
{
    proof {
        lemma_batch_is_not_empty(input@, 0);
    }
    Vec::<SqlQuery>::parse_format_error(input)
}

} // verus!
