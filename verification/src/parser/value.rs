//! The values a column can hold, and the literals that denote them.

use crate::parser::error::BaseErrorKind;
use crate::parser::error::ErrorKind;
use crate::parser::error::ErrorTree;
use crate::parser::error::Expectation;
use crate::parser::error::Tree;
use crate::parser::parse::cut;
use crate::parser::parse::leaf;
use crate::parser::source::lemma_run_end;
use crate::parser::parse::outcome;
use crate::parser::source::run_end;
use crate::parser::parse::tag;
use crate::parser::source::CharClass;
use crate::parser::parse::Outcome;
use crate::parser::parse::Parse;
use crate::parser::parse::ParseErr;
use crate::parser::parse::ParseResult;
use crate::parser::source::Source;
use bigdecimal::BigDecimal;
use std::str::FromStr;
use vstd::prelude::*;

verus! {

/// `bigdecimal::BigDecimal`, an arbitrary-precision decimal number. Nothing is
/// known here of what such a number holds: the library carries it from a
/// literal to a table and back.
#[verifier::external_type_specification]
#[verifier::external_body]
pub struct ExBigDecimal(bigdecimal::BigDecimal);

/// A value of a column.
#[derive(Debug, PartialEq, Eq, Hash)]
pub enum Value {
    /// A number, which a column of type `Int` takes.
    Number(BigDecimal),
    /// A string, which a column of type `String` takes.
    String(String),
}

/// The mathematical value of a [`Value`].
pub ghost enum ValueView {
    Number(BigDecimal),
    String(Seq<char>),
}

impl DeepView for Value {
    type V = ValueView;

    open spec fn deep_view(&self) -> ValueView {
        match self {
            Value::Number(number) => ValueView::Number(*number),
            Value::String(string) => ValueView::String(string@),
        }
    }
}

impl View for Value {
    type V = ValueView;

    open spec fn view(&self) -> ValueView {
        self.deep_view()
    }
}

/// The number that `BigDecimal::from_str` makes of a run of decimal digits.
pub uninterp spec fn decimal_of(digits: Seq<char>) -> BigDecimal;

/// `BigDecimal::from_str` on a non-empty run of ASCII digits. Such a text has
/// no sign, point or exponent, so the conversion succeeds; the contract names
/// its result and says nothing more of it.
#[verifier::external_body]
fn decimal_from_digits(digits: &str) -> (number: BigDecimal)
    requires
        digits@.len() > 0,
        forall|i: int| 0 <= i < digits@.len() ==> CharClass::Digit.has(#[trigger] digits@[i]),
    ensures
        number == decimal_of(digits@),
{
    BigDecimal::from_str(digits).unwrap()
}

/// `BigDecimal::clone`: the copy is the same number.
pub assume_specification[ <BigDecimal as Clone>::clone ](number: &BigDecimal) -> (copy: BigDecimal)
    ensures
        copy == *number,
;

/// A string literal: everything between a single quote and the next one,
/// verbatim.
pub open spec fn string_literal(text: Seq<char>, pos: int) -> Outcome<ValueView> {
    let literal = match tag(text, pos, "'") {
        Outcome::Done { next: start, .. } => {
            let end = run_end(text, start, CharClass::Unquoted);
            if end < text.len() {
                Outcome::Done { next: end + 1, value: ValueView::String(text.subrange(start, end)) }
            } else {
                Outcome::Error(leaf(text, start, BaseErrorKind::Kind(ErrorKind::TakeUntil)))
            }
        },
        other => other.fail(),
    };
    literal.in_context(text, pos, "String Literal")
}

/// A number literal: a run of at least one ASCII digit.
pub open spec fn number_literal(text: Seq<char>, pos: int) -> Outcome<ValueView> {
    let end = run_end(text, pos, CharClass::Digit);
    let literal = if end == pos {
        Outcome::Error(leaf(text, pos, BaseErrorKind::Expected(Expectation::Digit)))
    } else {
        Outcome::Done { next: end, value: ValueView::Number(decimal_of(text.subrange(pos, end))) }
    };
    literal.in_context(text, pos, "Number Literal")
}

/// A literal with any whitespace around it. What begins with a single quote is
/// a string literal and nothing else; anything else is tried as a number.
pub open spec fn value(text: Seq<char>, pos: int) -> Outcome<ValueView> {
    let start = run_end(text, pos, CharClass::Whitespace);
    let literal = match tag(text, start, "'") {
        Outcome::Done { .. } => string_literal(text, start).cut(),
        Outcome::Error(unquoted) => match number_literal(text, start) {
            Outcome::Error(tree) => Outcome::Error(Tree::Alt(seq![unquoted, tree])),
            other => other,
        },
        Outcome::Failure(tree) => Outcome::Failure(tree),
    };
    let padded = match literal {
        Outcome::Done { next, value } => Outcome::Done {
            next: run_end(text, next, CharClass::Whitespace),
            value,
        },
        other => other,
    };
    padded.in_context(text, pos, "Value")
}

/// Reads a string literal at `pos`.
fn parse_string_value(source: &Source, pos: usize) -> (result: ParseResult<Value>)
    requires
        pos <= source@.len(),
    ensures
        outcome(result) == string_literal(source@, pos as int),
        outcome(result).sound(source@, pos as int),
{
    let literal = match source.tag(pos, "'") {
        Ok((start, _)) => {
            let end = source.scan(start, CharClass::Unquoted);
            if end < source.len() {
                Ok((end + 1, Value::String(source.slice(start, end))))
            } else {
                source.error(start, BaseErrorKind::Kind(ErrorKind::TakeUntil))
            }
        },
        Err(e) => Err(e),
    };
    source.in_context(literal, pos, "String Literal")
}

/// Reads a number literal at `pos`.
fn parse_number_value(source: &Source, pos: usize) -> (result: ParseResult<Value>)
    requires
        pos <= source@.len(),
    ensures
        outcome(result) == number_literal(source@, pos as int),
        outcome(result).sound(source@, pos as int),
{
    let end = source.scan(pos, CharClass::Digit);
    let literal = if end == pos {
        source.error(pos, BaseErrorKind::Expected(Expectation::Digit))
    } else {
        let digits = source.slice(pos, end);
        proof {
            lemma_run_end(source@, pos as int, CharClass::Digit);
            assert forall|i: int| 0 <= i < digits@.len() implies CharClass::Digit.has(
                #[trigger] digits@[i],
            ) by {
                assert(digits@[i] == source@[pos + i]);
            }
        }
        Ok((end, Value::Number(decimal_from_digits(digits.as_str()))))
    };
    source.in_context(literal, pos, "Number Literal")
}

impl Parse for Value {
    open spec fn grammar(text: Seq<char>, pos: int) -> Outcome<ValueView> {
        value(text, pos)
    }

    fn parse(source: &Source, pos: usize) -> (result: ParseResult<Value>) {
        assert(Self::grammar(source@, pos as int) == value(source@, pos as int));
        let start = source.multispace0(pos);
        let literal = match source.tag(start, "'") {
            Ok(_) => cut(parse_string_value(source, start)),
            Err(ParseErr::Error(unquoted)) => match parse_number_value(source, start) {
                Err(ParseErr::Error(tree)) => Err(
                    ParseErr::Error(ErrorTree::neither(unquoted, tree)),
                ),
                other => other,
            },
            Err(failure) => Err(failure),
        };
        let padded = match literal {
            Ok((next, value)) => Ok((source.multispace0(next), value)),
            other => other,
        };
        source.in_context(padded, pos, "Value")
    }
}

impl Clone for Value {
    fn clone(&self) -> (copy: Value)
        ensures
            copy == *self,
    {
        match self {
            Value::Number(number) => Value::Number(number.clone()),
            Value::String(string) => Value::String(string.clone()),
        }
    }
}

} // verus!
