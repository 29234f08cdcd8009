use toy_sql::parser::error::format_parse_error;
use toy_sql::parser::error::BaseErrorKind;
use toy_sql::parser::error::ErrorKind;
use toy_sql::parser::error::ErrorTree;
use toy_sql::parser::error::Expectation;
use toy_sql::parser::error::FormattedErrorContext;
use toy_sql::parser::error::SourceSpan;
use toy_sql::parser::error::StackContext;

fn leaf(location: usize, kind: BaseErrorKind) -> ErrorTree {
    ErrorTree::Base { location, kind }
}

fn stack(base: ErrorTree, contexts: Vec<(usize, StackContext)>) -> ErrorTree {
    ErrorTree::Stack {
        base: Box::new(base),
        contexts,
    }
}

#[test]
fn a_leaf_becomes_a_diagnostic_without_breadcrumbs() {
    let formatted = format_parse_error(
        "abc",
        leaf(2, BaseErrorKind::Expected(Expectation::Char('x'))),
    );
    assert_eq!(formatted.src, "abc");
    assert_eq!(
        formatted.span,
        SourceSpan {
            offset: 2,
            length: 0
        }
    );
    assert_eq!(
        formatted.kind,
        BaseErrorKind::Expected(Expectation::Char('x'))
    );
    assert!(formatted.others.is_empty());
}

#[test]
fn a_stack_adds_its_frames_behind_those_of_its_base() {
    let inner = stack(
        leaf(5, BaseErrorKind::Kind(ErrorKind::TakeWhile1)),
        vec![(4, StackContext::Context("inner"))],
    );
    let outer = stack(
        inner,
        vec![
            (1, StackContext::Context("middle")),
            (0, StackContext::Kind(ErrorKind::Many1)),
        ],
    );
    let formatted = format_parse_error("source", outer);
    assert_eq!(formatted.span.offset, 5);
    assert_eq!(formatted.kind, BaseErrorKind::Kind(ErrorKind::TakeWhile1));
    assert_eq!(
        formatted.others,
        vec![
            FormattedErrorContext {
                src: "source",
                span: SourceSpan {
                    offset: 4,
                    length: 0
                },
                context: StackContext::Context("inner"),
            },
            FormattedErrorContext {
                src: "source",
                span: SourceSpan {
                    offset: 1,
                    length: 0
                },
                context: StackContext::Context("middle"),
            },
            FormattedErrorContext {
                src: "source",
                span: SourceSpan {
                    offset: 0,
                    length: 0
                },
                context: StackContext::Kind(ErrorKind::Many1),
            },
        ]
    );
}

#[test]
fn a_choice_is_represented_by_its_longest_trail() {
    let short = stack(
        leaf(1, BaseErrorKind::Expected(Expectation::Eof)),
        vec![(0, StackContext::Context("short"))],
    );
    let long = stack(
        leaf(2, BaseErrorKind::Expected(Expectation::Multispace)),
        vec![
            (0, StackContext::Context("long")),
            (0, StackContext::Context("longer")),
        ],
    );
    let bare = leaf(3, BaseErrorKind::Expected(Expectation::Digit));
    let formatted = format_parse_error("text", ErrorTree::Alt(vec![short, long, bare]));
    assert_eq!(formatted.span.offset, 2);
    assert_eq!(formatted.others.len(), 2);
}

#[test]
fn of_equally_long_trails_the_first_represents_the_choice() {
    let first = stack(
        leaf(1, BaseErrorKind::Expected(Expectation::Eof)),
        vec![(0, StackContext::Context("first"))],
    );
    let second = stack(
        leaf(2, BaseErrorKind::Expected(Expectation::Multispace)),
        vec![(0, StackContext::Context("second"))],
    );
    let formatted = format_parse_error(
        "text",
        ErrorTree::Alt(vec![
            leaf(9, BaseErrorKind::Expected(Expectation::Digit)),
            first,
            second,
        ]),
    );
    assert_eq!(formatted.span.offset, 1);
    assert_eq!(formatted.others[0].context, StackContext::Context("first"));
    let nested = ErrorTree::Alt(vec![
        ErrorTree::Alt(vec![
            leaf(4, BaseErrorKind::Expected(Expectation::Digit)),
            leaf(5, BaseErrorKind::Expected(Expectation::Digit)),
        ]),
        leaf(6, BaseErrorKind::Expected(Expectation::Digit)),
    ]);
    assert_eq!(format_parse_error("text", nested).span.offset, 4);
}
