//! What can go wrong when a statement is applied.

use crate::parser::commands::create::SqlTypeInfo;
use crate::parser::error::Diagnostic;
use crate::parser::error::FormattedError;
use crate::parser::value::Value;
use crate::parser::value::ValueView;
use vstd::prelude::*;
use vstd::std_specs::convert::FromSpecImpl;

verus! {

/// A statement that the engine refused.
#[derive(Debug, PartialEq, Eq)]
pub enum QueryExecutionError {
    /// No table of this name is registered.
    TableNotFound(String),
    /// A table of this name is registered already.
    TableAlreadyExists(String),
    /// The table has no column of this name.
    ColumnDoesNotExist(String),
    /// A column of this type cannot take this value.
    InsertTypeMismatch(SqlTypeInfo, Value),
}

/// The mathematical value of a [`QueryExecutionError`].
pub ghost enum Refusal {
    TableNotFound(Seq<char>),
    TableAlreadyExists(Seq<char>),
    ColumnDoesNotExist(Seq<char>),
    InsertTypeMismatch(SqlTypeInfo, ValueView),
}

impl View for QueryExecutionError {
    type V = Refusal;

    open spec fn view(&self) -> Refusal {
        match self {
            QueryExecutionError::TableNotFound(name) => Refusal::TableNotFound(name@),
            QueryExecutionError::TableAlreadyExists(name) => Refusal::TableAlreadyExists(name@),
            QueryExecutionError::ColumnDoesNotExist(name) => Refusal::ColumnDoesNotExist(name@),
            QueryExecutionError::InsertTypeMismatch(type_info, value) => Refusal::InsertTypeMismatch(
                *type_info,
                value@,
            ),
        }
    }
}

/// What `result` is as a mathematical value.
pub open spec fn reply<T: View>(result: Result<T, QueryExecutionError>) -> Result<T::V, Refusal> {
    match result {
        Ok(value) => Ok(value@),
        Err(e) => Err(e@),
    }
}

/// Either of the two ways in which SQL text can fail: it does not parse, or
/// the engine refuses the statement.
#[derive(Debug, PartialEq, Eq)]
pub enum SQLError<'a> {
    QueryExecutionError(QueryExecutionError),
    ParsingError(FormattedError<'a>),
}

/// The mathematical value of an [`SQLError`].
pub ghost enum Fault {
    Refused(Refusal),
    Unparsed(Diagnostic),
}

impl<'a> View for SQLError<'a> {
    type V = Fault;

    open spec fn view(&self) -> Fault {
        match self {
            SQLError::QueryExecutionError(e) => Fault::Refused(e@),
            SQLError::ParsingError(e) => Fault::Unparsed(e@),
        }
    }
}

impl<'a> From<FormattedError<'a>> for SQLError<'a> {
    fn from(value: FormattedError<'a>) -> (error: SQLError<'a>) {
        SQLError::ParsingError(value)
    }
}

impl<'a> FromSpecImpl<FormattedError<'a>> for SQLError<'a> {
    open spec fn obeys_from_spec() -> bool {
        true
    }

    open spec fn from_spec(value: FormattedError<'a>) -> SQLError<'a> {
        SQLError::ParsingError(value)
    }
}

impl<'a> From<QueryExecutionError> for SQLError<'a> {
    fn from(value: QueryExecutionError) -> (error: SQLError<'a>) {
        SQLError::QueryExecutionError(value)
    }
}

impl<'a> FromSpecImpl<QueryExecutionError> for SQLError<'a> {
    open spec fn obeys_from_spec() -> bool {
        true
    }

    open spec fn from_spec(value: QueryExecutionError) -> SQLError<'a> {
        SQLError::QueryExecutionError(value)
    }
}

} // verus!
