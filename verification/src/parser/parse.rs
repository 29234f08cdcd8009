//! The shape of a parse result, the lexical rules shared by all statement
//! grammars, and lists of items.

use crate::parser::error::diagnose;
use crate::parser::error::format_parse_error;
use crate::parser::error::well_formed;
use crate::parser::error::BaseErrorKind;
use crate::parser::error::Diagnostic;
use crate::parser::error::ErrorKind;
use crate::parser::error::ErrorTree;
use crate::parser::error::Expectation;
use crate::parser::error::FormattedError;
use crate::parser::error::StackContext;
use crate::parser::error::Tree;
use crate::parser::source::byte_offset;
use crate::parser::source::run_end;
use crate::parser::source::stands_at;
use crate::parser::source::CharClass;
use crate::parser::source::Source;
use vstd::prelude::*;

verus! {

/// A failed parse. After an `Error` an enclosing choice goes on to its next
/// branch; a `Failure` ends the parse.
#[derive(Debug, PartialEq, Eq)]
pub enum ParseErr {
    Error(ErrorTree),
    Failure(ErrorTree),
}

/// The result of a parser: the position behind what it consumed and the value
/// it built, or how it failed.
pub type ParseResult<T> = Result<(usize, T), ParseErr>;

/// What a grammar rule yields at some position of a text.
pub ghost enum Outcome<T> {
    /// The rule matched up to `next` and produced `value`.
    Done { next: int, value: T },
    /// The rule did not match; another branch may.
    Error(Tree),
    /// The rule did not match, and no other branch is to be tried.
    Failure(Tree),
}

impl<T> Outcome<T> {
    /// The same failure, as the outcome of a rule with another value type.
    pub open spec fn fail<U>(self) -> Outcome<U>
        recommends
            !(self is Done),
    {
        match self {
            Outcome::Done { .. } => Outcome::Error(Tree::Alt(Seq::empty())),
            Outcome::Error(tree) => Outcome::Error(tree),
            Outcome::Failure(tree) => Outcome::Failure(tree),
        }
    }

    /// The same outcome with `value` in place of the value produced.
    pub open spec fn with<U>(self, value: U) -> Outcome<U> {
        match self {
            Outcome::Done { next, .. } => Outcome::Done { next, value },
            Outcome::Error(tree) => Outcome::Error(tree),
            Outcome::Failure(tree) => Outcome::Failure(tree),
        }
    }

    /// The outcome of a rule that is a named checkpoint entered at `pos`: a
    /// failure carries one more frame, labelled `label`.
    pub open spec fn in_context(self, text: Seq<char>, pos: int, label: &'static str) -> Outcome<
        T,
    > {
        let frame = (byte_offset(text, pos) as usize, StackContext::Context(label));
        match self {
            Outcome::Done { .. } => self,
            Outcome::Error(tree) => Outcome::Error(push_frame(tree, frame)),
            Outcome::Failure(tree) => Outcome::Failure(push_frame(tree, frame)),
        }
    }

    /// The outcome of a rule after which no other branch may be tried.
    pub open spec fn cut(self) -> Outcome<T> {
        match self {
            Outcome::Error(tree) => Outcome::Failure(tree),
            _ => self,
        }
    }

    /// A failure tree has no ordered choice without branches, and a match ends
    /// between `pos` and the end of `text`.
    pub open spec fn sound(self, text: Seq<char>, pos: int) -> bool {
        match self {
            Outcome::Done { next, .. } => pos <= next <= text.len(),
            Outcome::Error(tree) => well_formed(tree),
            Outcome::Failure(tree) => well_formed(tree),
        }
    }
}

/// The tree `tree` with one more frame on its stack of contexts.
pub open spec fn push_frame(tree: Tree, frame: (usize, StackContext)) -> Tree {
    match tree {
        Tree::Stack { base, contexts } => Tree::Stack { base, contexts: contexts.push(frame) },
        _ => Tree::Stack { base: Box::new(tree), contexts: seq![frame] },
    }
}

/// A leaf failure of kind `kind` at the character position `pos` of `text`.
pub open spec fn leaf(text: Seq<char>, pos: int, kind: BaseErrorKind) -> Tree {
    Tree::Base { location: byte_offset(text, pos) as usize, kind }
}

/// What `result` is as an outcome.
pub open spec fn outcome<T: DeepView>(result: ParseResult<T>) -> Outcome<T::V> {
    match result {
        Ok((next, value)) => Outcome::Done { next: next as int, value: value.deep_view() },
        Err(ParseErr::Error(tree)) => Outcome::Error(tree@),
        Err(ParseErr::Failure(tree)) => Outcome::Failure(tree@),
    }
}

/// Any amount of whitespace, none included.
pub open spec fn multispace0(text: Seq<char>, pos: int) -> Outcome<()> {
    Outcome::Done { next: run_end(text, pos, CharClass::Whitespace), value: () }
}

/// At least one whitespace character.
pub open spec fn multispace1(text: Seq<char>, pos: int) -> Outcome<()> {
    if run_end(text, pos, CharClass::Whitespace) == pos {
        Outcome::Error(leaf(text, pos, BaseErrorKind::Expected(Expectation::Multispace)))
    } else {
        Outcome::Done { next: run_end(text, pos, CharClass::Whitespace), value: () }
    }
}

/// The text `tag`, exactly.
pub open spec fn tag(text: Seq<char>, pos: int, tag: &'static str) -> Outcome<()> {
    if stands_at(text, pos, tag@, false) {
        Outcome::Done { next: pos + tag@.len(), value: () }
    } else {
        Outcome::Error(leaf(text, pos, BaseErrorKind::Expected(Expectation::Tag(tag))))
    }
}

/// The text `tag`, in any mix of upper and lower case.
pub open spec fn tag_no_case(text: Seq<char>, pos: int, tag: &'static str) -> Outcome<()> {
    if stands_at(text, pos, tag@, true) {
        Outcome::Done { next: pos + tag@.len(), value: () }
    } else {
        Outcome::Error(leaf(text, pos, BaseErrorKind::Expected(Expectation::Tag(tag))))
    }
}

/// The single character `c`.
pub open spec fn character(text: Seq<char>, pos: int, c: char) -> Outcome<()> {
    if 0 <= pos < text.len() && text[pos] == c {
        Outcome::Done { next: pos + 1, value: () }
    } else {
        Outcome::Error(leaf(text, pos, BaseErrorKind::Expected(Expectation::Char(c))))
    }
}

/// Two keywords in a row, in any letter case, each followed by whitespace.
pub open spec fn keywords(
    text: Seq<char>,
    pos: int,
    first: &'static str,
    second: &'static str,
) -> Outcome<()> {
    match tag_no_case(text, pos, first) {
        Outcome::Done { next, .. } => match multispace1(text, next) {
            Outcome::Done { next, .. } => match tag_no_case(text, next, second) {
                Outcome::Done { next, .. } => multispace1(text, next),
                other => other,
            },
            other => other,
        },
        other => other,
    }
}

/// The end of the text.
pub open spec fn eof(text: Seq<char>, pos: int) -> Outcome<()> {
    if pos == text.len() {
        Outcome::Done { next: pos, value: () }
    } else {
        Outcome::Error(leaf(text, pos, BaseErrorKind::Expected(Expectation::Eof)))
    }
}

/// An unquoted identifier: a run of at least one ASCII letter or digit.
pub open spec fn identifier(text: Seq<char>, pos: int) -> Outcome<Seq<char>> {
    let end = run_end(text, pos, CharClass::Alphanumeric);
    if end == pos {
        Outcome::Error(leaf(text, pos, BaseErrorKind::Kind(ErrorKind::TakeWhile1)))
    } else {
        Outcome::Done { next: end, value: text.subrange(pos, end) }
    }
}

/// Puts one more frame on the stack of contexts of `tree`.
pub fn add_context(tree: ErrorTree, location: usize, context: StackContext) -> (framed: ErrorTree)
    ensures
        framed@ == push_frame(tree@, (location, context)),
        well_formed(tree@) ==> well_formed(framed@),
{
    match tree {
        ErrorTree::Stack { base, mut contexts } => {
            contexts.push((location, context));
            ErrorTree::Stack { base, contexts }
        },
        other => {
            let mut contexts: Vec<(usize, StackContext)> = Vec::new();
            contexts.push((location, context));
            let framed = ErrorTree::Stack { base: Box::new(other), contexts };
            assert(framed@->Stack_contexts =~= seq![(location, context)]);
            framed
        },
    }
}

/// Turns a recoverable error into a final one.
pub fn cut<T: DeepView>(result: ParseResult<T>) -> (decided: ParseResult<T>)
    ensures
        outcome(decided) == outcome(result).cut(),
{
    match result {
        Err(ParseErr::Error(tree)) => Err(ParseErr::Failure(tree)),
        other => other,
    }
}

impl<'a> Source<'a> {
    /// A leaf failure of kind `kind` at `pos`.
    pub fn error<T: DeepView>(&self, pos: usize, kind: BaseErrorKind) -> (result: ParseResult<T>)
        requires
            pos <= self@.len(),
        ensures
            outcome(result) == Outcome::<T::V>::Error(leaf(self@, pos as int, kind)),
    {
        Err(ParseErr::Error(ErrorTree::Base { location: self.offset(pos), kind }))
    }

    /// Marks a failure of `result` as one of the checkpoint `label` that was
    /// entered at `pos`.
    pub fn in_context<T: DeepView>(
        &self,
        result: ParseResult<T>,
        pos: usize,
        label: &'static str,
    ) -> (framed: ParseResult<T>)
        requires
            pos <= self@.len(),
        ensures
            outcome(framed) == outcome(result).in_context(self@, pos as int, label),
            outcome(result).sound(self@, pos as int) ==> outcome(framed).sound(
                self@,
                pos as int,
            ),
    {
        match result {
            Ok(done) => Ok(done),
            Err(ParseErr::Error(tree)) => Err(
                ParseErr::Error(
                    add_context(tree, self.offset(pos), StackContext::Context(label)),
                ),
            ),
            Err(ParseErr::Failure(tree)) => Err(
                ParseErr::Failure(
                    add_context(tree, self.offset(pos), StackContext::Context(label)),
                ),
            ),
        }
    }

    /// Any amount of whitespace at `pos`.
    pub fn multispace0(&self, pos: usize) -> (next: usize)
        requires
            pos <= self@.len(),
        ensures
            multispace0(self@, pos as int) == (Outcome::Done { next: next as int, value: () }),
            pos <= next <= self@.len(),
    {
        self.scan(pos, CharClass::Whitespace)
    }

    /// At least one whitespace character at `pos`.
    pub fn multispace1(&self, pos: usize) -> (result: ParseResult<()>)
        requires
            pos <= self@.len(),
        ensures
            outcome(result) == multispace1(self@, pos as int),
            outcome(result).sound(self@, pos as int),
    {
        let end = self.scan(pos, CharClass::Whitespace);
        if end == pos {
            self.error(pos, BaseErrorKind::Expected(Expectation::Multispace))
        } else {
            Ok((end, ()))
        }
    }

    /// The text `tag` at `pos`, exactly.
    pub fn tag(&self, pos: usize, tag: &'static str) -> (result: ParseResult<()>)
        requires
            pos <= self@.len(),
        ensures
            outcome(result) == self::tag(self@, pos as int, tag),
            outcome(result).sound(self@, pos as int),
    {
        if self.starts_with(pos, tag, false) {
            Ok((pos + tag.unicode_len(), ()))
        } else {
            self.error(pos, BaseErrorKind::Expected(Expectation::Tag(tag)))
        }
    }

    /// The text `tag` at `pos`, in any mix of upper and lower case.
    pub fn tag_no_case(&self, pos: usize, tag: &'static str) -> (result: ParseResult<()>)
        requires
            pos <= self@.len(),
        ensures
            outcome(result) == self::tag_no_case(self@, pos as int, tag),
            outcome(result).sound(self@, pos as int),
    {
        if self.starts_with(pos, tag, true) {
            Ok((pos + tag.unicode_len(), ()))
        } else {
            self.error(pos, BaseErrorKind::Expected(Expectation::Tag(tag)))
        }
    }

    /// The single character `c` at `pos`.
    pub fn character(&self, pos: usize, c: char) -> (result: ParseResult<()>)
        requires
            pos <= self@.len(),
        ensures
            outcome(result) == character(self@, pos as int, c),
            outcome(result).sound(self@, pos as int),
    {
        if pos < self.len() && self.char_at(pos) == c {
            Ok((pos + 1, ()))
        } else {
            self.error(pos, BaseErrorKind::Expected(Expectation::Char(c)))
        }
    }

    /// Two keywords in a row at `pos`, each followed by whitespace.
    pub fn keywords(&self, pos: usize, first: &'static str, second: &'static str) -> (result:
        ParseResult<()>)
        requires
            pos <= self@.len(),
        ensures
            outcome(result) == keywords(self@, pos as int, first, second),
            outcome(result).sound(self@, pos as int),
    {
        let (next, _) = self.tag_no_case(pos, first)?;
        let (next, _) = self.multispace1(next)?;
        let (next, _) = self.tag_no_case(next, second)?;
        self.multispace1(next)
    }

    /// The end of the text at `pos`.
    pub fn eof(&self, pos: usize) -> (result: ParseResult<()>)
        requires
            pos <= self@.len(),
        ensures
            outcome(result) == eof(self@, pos as int),
            outcome(result).sound(self@, pos as int),
    {
        if pos == self.len() {
            Ok((pos, ()))
        } else {
            self.error(pos, BaseErrorKind::Expected(Expectation::Eof))
        }
    }

    /// An unquoted identifier at `pos`.
    pub fn identifier(&self, pos: usize) -> (result: ParseResult<String>)
        requires
            pos <= self@.len(),
        ensures
            outcome(result) == identifier(self@, pos as int),
            outcome(result).sound(self@, pos as int),
    {
        let end = self.scan(pos, CharClass::Alphanumeric);
        if end == pos {
            self.error(pos, BaseErrorKind::Kind(ErrorKind::TakeWhile1))
        } else {
            Ok((end, self.slice(pos, end)))
        }
    }
}

/// What is left of a text behind a parse: the rest of the text, and the byte
/// offset at which it begins.
#[derive(Debug, Clone, Copy, PartialEq, Eq)]
pub struct RawSpan<'a> {
    pub offset: usize,
    pub fragment: &'a str,
}

impl<'a> RawSpan<'a> {
    /// The rest of the text.
    pub fn fragment(&self) -> (fragment: &'a str)
        ensures
            fragment == self.fragment,
    {
        self.fragment
    }

    /// The byte offset in the whole text at which the rest begins.
    pub fn location_offset(&self) -> (offset: usize)
        ensures
            offset == self.offset,
    {
        self.offset
    }
}

/// The outcome of a rule that must reach the end of the text: a match that
/// ends before it is a failure there.
pub open spec fn all_consuming<T>(text: Seq<char>, outcome: Outcome<T>) -> Outcome<T> {
    match outcome {
        Outcome::Done { next, .. } if next != text.len() => Outcome::Error(
            leaf(text, next, BaseErrorKind::Expected(Expectation::Eof)),
        ),
        _ => outcome,
    }
}

/// What a rule that yields `outcome` on `text` gives where it must account
/// for the whole text: the value, or the diagnostic of the failure.
pub open spec fn reading<T>(text: Seq<char>, outcome: Outcome<T>) -> Result<T, Diagnostic> {
    match all_consuming(text, outcome) {
        Outcome::Done { value, .. } => Ok(value),
        Outcome::Error(tree) => Err(diagnose(text, tree)),
        Outcome::Failure(tree) => Err(diagnose(text, tree)),
    }
}

/// What `result` is as a mathematical value.
pub open spec fn read<'a, T: DeepView>(result: Result<T, FormattedError<'a>>) -> Result<
    T::V,
    Diagnostic,
> {
    match result {
        Ok(value) => Ok(value.deep_view()),
        Err(e) => Err(e@),
    }
}

/// A type with a grammar: a rule that reads a value of the type from a text.
pub trait Parse: Sized + DeepView {
    /// What the rule yields at the character position `pos` of `text`.
    spec fn grammar(text: Seq<char>, pos: int) -> Outcome<<Self as DeepView>::V>;

    /// Reads a value at `pos`.
    fn parse(source: &Source, pos: usize) -> (result: ParseResult<Self>)
        requires
            pos <= source@.len(),
        ensures
            outcome(result) == Self::grammar(source@, pos as int),
            outcome(result).sound(source@, pos as int),
    ;

    /// Reads a value at the start of `input`, and says what is left behind it.
    fn parse_from_raw<'a>(input: &'a str) -> (result: Result<(RawSpan<'a>, Self), ParseErr>)
        ensures
            match result {
                Ok((rest, value)) => {
                    let next = input@.len() - rest.fragment@.len();
                    &&& Self::grammar(input@, 0) == (Outcome::Done {
                        next,
                        value: value.deep_view(),
                    })
                    &&& 0 <= next
                    &&& rest.fragment@ == input@.skip(next)
                    &&& rest.offset == byte_offset(input@, next)
                },
                Err(ParseErr::Error(tree)) => Self::grammar(input@, 0) == Outcome::<
                    Self::V,
                >::Error(tree@),
                Err(ParseErr::Failure(tree)) => Self::grammar(input@, 0) == Outcome::<
                    Self::V,
                >::Failure(tree@),
            },
    {
        let source = Source::new(input);
        match Self::parse(&source, 0) {
            Ok((next, value)) => Ok(
                (RawSpan { offset: source.offset(next), fragment: source.rest(next) }, value),
            ),
            Err(e) => Err(e),
        }
    }

    /// Reads the whole of `input` as one value; a failure comes as a
    /// diagnostic.
    fn parse_format_error<'a>(input: &'a str) -> (result: Result<Self, FormattedError<'a>>)
        ensures
            read(result) == reading(input@, Self::grammar(input@, 0)),
    {
        let source = Source::new(input);
        match Self::parse(&source, 0) {
            Ok((next, value)) => {
                if next == source.len() {
                    Ok(value)
                } else {
                    Err(
                        format_parse_error(
                            input,
                            ErrorTree::Base {
                                location: source.offset(next),
                                kind: BaseErrorKind::Expected(Expectation::Eof),
                            },
                        ),
                    )
                }
            },
            Err(ParseErr::Error(tree)) => Err(format_parse_error(input, tree)),
            Err(ParseErr::Failure(tree)) => Err(format_parse_error(input, tree)),
        }
    }
}

/// A bare word reads as an identifier.
impl Parse for String {
    open spec fn grammar(text: Seq<char>, pos: int) -> Outcome<Seq<char>> {
        identifier(text, pos)
    }

    fn parse(source: &Source, pos: usize) -> (result: ParseResult<String>) {
        assert(Self::grammar(source@, pos as int) == identifier(source@, pos as int));
        source.identifier(pos)
    }
}

/// What separates the items of a list: a comma, with any whitespace around it.
pub open spec fn separator(text: Seq<char>, pos: int) -> Outcome<()> {
    let comma = character(text, run_end(text, pos, CharClass::Whitespace), ',');
    match comma {
        Outcome::Done { next, .. } => Outcome::Done {
            next: run_end(text, next, CharClass::Whitespace),
            value: (),
        },
        _ => comma,
    }
}

/// The rest of a comma-separated list of which the items `found` have been
/// read up to `pos`: as many further items, each behind a separator, as can be
/// read. A separator that no item follows is not part of the list.
pub open spec fn comma_sep_rest<T: Parse>(text: Seq<char>, pos: int, found: Seq<T::V>) -> Outcome<
    Seq<T::V>,
>
    decreases text.len() - pos,
{
    match separator(text, pos) {
        Outcome::Done { next: start, .. } => match T::grammar(text, start) {
            Outcome::Done { next, value } => if pos < next <= text.len() {
                comma_sep_rest::<T>(text, next, found.push(value))
            } else {
                Outcome::Done { next: pos, value: found }
            },
            Outcome::Error(_) => Outcome::Done { next: pos, value: found },
            Outcome::Failure(tree) => Outcome::Failure(tree),
        },
        _ => Outcome::Done { next: pos, value: found },
    }
}

/// A list of one or more items separated by commas.
pub open spec fn comma_sep<T: Parse>(text: Seq<char>, pos: int) -> Outcome<Seq<T::V>> {
    match T::grammar(text, pos) {
        Outcome::Done { next, value } => comma_sep_rest::<T>(text, next, seq![value]),
        Outcome::Error(tree) => Outcome::Error(tree),
        Outcome::Failure(tree) => Outcome::Failure(tree),
    }
}

/// What separates the items of a list, at `pos`.
fn parse_separator(source: &Source, pos: usize) -> (result: ParseResult<()>)
    requires
        pos <= source@.len(),
    ensures
        outcome(result) == separator(source@, pos as int),
        outcome(result).sound(source@, pos as int),
        result matches Ok((next, _)) ==> pos < next,
{
    let comma = source.multispace0(pos);
    match source.character(comma, ',') {
        Ok((next, _)) => Ok((source.multispace0(next), ())),
        Err(e) => Err(e),
    }
}

/// Reads a list of one or more items separated by commas at `pos`.
pub fn parse_comma_sep<T: Parse>(source: &Source, pos: usize) -> (result: ParseResult<Vec<T>>)
    requires
        pos <= source@.len(),
    ensures
        outcome(result) == comma_sep::<T>(source@, pos as int),
        outcome(result).sound(source@, pos as int),
{
    let (first_end, first) = match T::parse(source, pos) {
        Ok(done) => done,
        Err(e) => {
            return Err(e);
        },
    };
    let mut items: Vec<T> = Vec::new();
    items.push(first);
    let mut end = first_end;
    assert(items.deep_view() =~= seq![first.deep_view()]);
    loop
        invariant
            pos <= end <= source@.len(),
            comma_sep::<T>(source@, pos as int) == comma_sep_rest::<T>(
                source@,
                end as int,
                items.deep_view(),
            ),
        decreases source@.len() - end,
    {
        let start = match parse_separator(source, end) {
            Ok((start, _)) => start,
            Err(_) => {
                return Ok((end, items));
            },
        };
        match T::parse(source, start) {
            Ok((next, item)) => {
                let ghost before = items.deep_view();
                items.push(item);
                assert(items.deep_view() =~= before.push(item.deep_view()));
                end = next;
            },
            Err(ParseErr::Error(_)) => {
                return Ok((end, items));
            },
            Err(failure) => {
                return Err(failure);
            },
        }
    }
}

} // verus!
