use bigdecimal::BigDecimal;
use std::str::FromStr;
use toy_sql::parser::ast::parse_multiple_queries;
use toy_sql::parser::ast::parse_sql_query;
use toy_sql::parser::ast::SqlQuery;
use toy_sql::parser::commands::create::Column;
use toy_sql::parser::commands::create::CreateStatement;
use toy_sql::parser::commands::create::SqlTypeInfo;
use toy_sql::parser::commands::insert::InsertStatement;
use toy_sql::parser::commands::select::SelectStatement;
use toy_sql::parser::error::BaseErrorKind;
use toy_sql::parser::error::Expectation;
use toy_sql::parser::error::StackContext;
use toy_sql::parser::parse::Parse;
use toy_sql::parser::value::Value;

#[test]
fn test_error() {
    let query = SqlQuery::parse_from_raw("select fart;");
    assert!(query.is_err(), "expected parse to fail, got {query:?}");
}

#[test]
fn test_select() {
    let expected = SelectStatement {
        table: "t1".to_string(),
        fields: vec!["foo".to_string(), "bar".to_string()],
    };
    assert_eq!(
        SqlQuery::parse_from_raw("select foo, bar from t1;")
            .unwrap()
            .1,
        SqlQuery::Select(expected)
    )
}

#[test]
fn test_create() {
    let expected = CreateStatement {
        table: "foo".into(),
        columns: vec![
            Column {
                name: "col1".into(),
                type_info: SqlTypeInfo::Int,
            },
            Column {
                name: "col2".into(),
                type_info: SqlTypeInfo::String,
            },
            Column {
                name: "col3".into(),
                type_info: SqlTypeInfo::String,
            },
        ],
    };

    assert_eq!(
        CreateStatement::parse_from_raw("CREATE TABLE foo (col1 int, col2 string, col3 string)")
            .unwrap()
            .1,
        expected
    )
}

#[test]
fn test_string() {
    let expected = Value::String("123abc new".to_string());
    let expected_remaining = "fart '123'";

    let (remaining, value) = Value::parse_from_raw("'123abc new' fart '123'").unwrap();

    assert_eq!(value, expected);

    assert_eq!(remaining.fragment().to_string(), expected_remaining)
}

#[test]
fn test_number() {
    let num = BigDecimal::from_str("123456").unwrap();
    let expected = Value::Number(num);

    assert_eq!(Value::parse_from_raw("123456").unwrap().1, expected)
}

#[test]
fn missing_from_is_located_behind_the_columns() {
    let error = parse_sql_query("select fart;").unwrap_err();
    assert_eq!(error.span.offset, 11);
    assert_eq!(error.span.length, 0);
    assert_eq!(error.kind, BaseErrorKind::Expected(Expectation::Multispace));
    let trail: Vec<(usize, StackContext)> = error
        .others
        .iter()
        .map(|crumb| (crumb.span.offset, crumb.context))
        .collect();
    assert_eq!(
        trail,
        vec![
            (0, StackContext::Context("Select statement")),
            (0, StackContext::Context("Query")),
        ]
    );
}

#[test]
fn insert_statement_is_read() {
    let expected = InsertStatement {
        table: "t1".to_string(),
        values: vec![
            Value::Number(BigDecimal::from_str("1").unwrap()),
            Value::String("a".to_string()),
        ],
    };
    assert_eq!(
        parse_sql_query("INSERT INTO t1 VALUES (1, 'a');").unwrap(),
        SqlQuery::Insert(expected)
    );
}

#[test]
fn batch_reads_every_statement() {
    let queries = parse_multiple_queries(
        "CREATE TABLE t1 (col1 int, col2 string);\nINSERT INTO t1 VALUES (1, 'a');\n  select col2, col1 from t1 ; ",
    )
    .unwrap();
    assert_eq!(queries.len(), 3);
    assert!(matches!(queries[0], SqlQuery::Create(_)));
    assert!(matches!(queries[1], SqlQuery::Insert(_)));
    assert_eq!(
        queries[2],
        SqlQuery::Select(SelectStatement {
            table: "t1".to_string(),
            fields: vec!["col2".to_string(), "col1".to_string()],
        })
    );
}

fn trail_of(error: &toy_sql::parser::error::FormattedError<'_>) -> Vec<(usize, StackContext)> {
    error
        .others
        .iter()
        .map(|crumb| (crumb.span.offset, crumb.context))
        .collect()
}

#[test]
fn keywords_are_read_in_any_letter_case() {
    assert_eq!(
        parse_sql_query("SeLeCt a FrOm t;").unwrap(),
        SqlQuery::Select(SelectStatement {
            table: "t".to_string(),
            fields: vec!["a".to_string()],
        })
    );
    assert_eq!(
        parse_sql_query("create TABLE t (a INT, b String);").unwrap(),
        SqlQuery::Create(CreateStatement {
            table: "t".to_string(),
            columns: vec![
                Column {
                    name: "a".to_string(),
                    type_info: SqlTypeInfo::Int
                },
                Column {
                    name: "b".to_string(),
                    type_info: SqlTypeInfo::String
                },
            ],
        })
    );
}

#[test]
fn whitespace_between_tokens_is_free() {
    assert_eq!(
        parse_sql_query(" \n\tCREATE\tTABLE\r\nFOO (\n    col1 string ,\n    col2 int\n)\n;\n").unwrap(),
        SqlQuery::Create(CreateStatement {
            table: "FOO".to_string(),
            columns: vec![
                Column {
                    name: "col1".to_string(),
                    type_info: SqlTypeInfo::String
                },
                Column {
                    name: "col2".to_string(),
                    type_info: SqlTypeInfo::Int
                },
            ],
        })
    );
    assert_eq!(
        parse_sql_query("insert into t values (  1 ,'a b'  ,  22  ) ;").unwrap(),
        SqlQuery::Insert(InsertStatement {
            table: "t".to_string(),
            values: vec![
                Value::Number(BigDecimal::from_str("1").unwrap()),
                Value::String("a b".to_string()),
                Value::Number(BigDecimal::from_str("22").unwrap()),
            ],
        })
    );
}

#[test]
fn a_statement_needs_its_semicolon() {
    let error = parse_sql_query("select a from t").unwrap_err();
    assert_eq!(error.span.offset, 15);
    assert_eq!(error.kind, BaseErrorKind::Expected(Expectation::Char(';')));
    assert_eq!(trail_of(&error), vec![(0, StackContext::Context("Query"))]);
    assert_eq!(error.src, "select a from t");
}

#[test]
fn text_behind_the_statement_is_refused() {
    let error = parse_sql_query("select a from t; x").unwrap_err();
    assert_eq!(error.span.offset, 17);
    assert_eq!(error.kind, BaseErrorKind::Expected(Expectation::Eof));
    assert!(error.others.is_empty());
}

#[test]
fn an_identifier_is_letters_and_digits() {
    assert_eq!(
        parse_sql_query("select col1, 2b from T9;").unwrap(),
        SqlQuery::Select(SelectStatement {
            table: "T9".to_string(),
            fields: vec!["col1".to_string(), "2b".to_string()],
        })
    );
    let error = parse_sql_query("select col_1 from t;").unwrap_err();
    assert_eq!(error.span.offset, 10);
    assert_eq!(error.kind, BaseErrorKind::Expected(Expectation::Multispace));
}

#[test]
fn an_unterminated_string_ends_the_parse() {
    let error = parse_sql_query("insert into t values ('abc);").unwrap_err();
    assert_eq!(error.span.offset, 23);
    assert_eq!(
        error.kind,
        BaseErrorKind::Kind(toy_sql::parser::error::ErrorKind::TakeUntil)
    );
    assert_eq!(
        trail_of(&error),
        vec![
            (22, StackContext::Context("String Literal")),
            (22, StackContext::Context("Value")),
            (14, StackContext::Context("Values")),
            (0, StackContext::Context("Insert Statement")),
            (0, StackContext::Context("Query")),
        ]
    );
    let raw = SqlQuery::parse_from_raw("insert into t values ('abc);");
    assert!(matches!(
        raw,
        Err(toy_sql::parser::parse::ParseErr::Failure(_))
    ));
}

#[test]
fn what_is_neither_quoted_nor_digits_is_no_value() {
    let error = parse_sql_query("insert into t values (x);").unwrap_err();
    assert_eq!(error.span.offset, 22);
    assert_eq!(error.kind, BaseErrorKind::Expected(Expectation::Digit));
    assert_eq!(
        trail_of(&error),
        vec![
            (22, StackContext::Context("Number Literal")),
            (22, StackContext::Context("Value")),
            (14, StackContext::Context("Values")),
            (0, StackContext::Context("Insert Statement")),
            (0, StackContext::Context("Query")),
        ]
    );
}

#[test]
fn an_unknown_column_type_is_refused() {
    let error = parse_sql_query("create table t (a float);").unwrap_err();
    assert_eq!(error.span.offset, 18);
    assert_eq!(
        error.kind,
        BaseErrorKind::Expected(Expectation::Tag("string"))
    );
    assert_eq!(
        trail_of(&error),
        vec![
            (18, StackContext::Context("Column Type")),
            (16, StackContext::Context("Create Column")),
            (15, StackContext::Context("Column Definitions")),
            (0, StackContext::Context("Create Table")),
            (0, StackContext::Context("Query")),
        ]
    );
}

#[test]
fn locations_are_byte_offsets() {
    let input = "insert into t values ('é', x);";
    let error = parse_sql_query(input).unwrap_err();
    assert_eq!(error.span.offset, input.find(',').unwrap());
    assert_eq!(error.span.offset, 26);
    assert_eq!(error.kind, BaseErrorKind::Expected(Expectation::Char(')')));
    let (rest, value) = Value::parse_from_raw("'¿qué?' tail").unwrap();
    assert_eq!(value, Value::String("¿qué?".to_string()));
    assert_eq!(rest.fragment(), "tail");
    assert_eq!(rest.location_offset(), 10);
}

#[test]
fn a_string_literal_is_taken_verbatim() {
    let (rest, value) = Value::parse_from_raw("  ' a, (b); \"c\" \\ '  ,").unwrap();
    assert_eq!(value, Value::String(" a, (b); \"c\" \\ ".to_string()));
    assert_eq!(rest.fragment(), ",");
    let (rest, value) = Value::parse_from_raw("''").unwrap();
    assert_eq!(value, Value::String(String::new()));
    assert_eq!(rest.fragment(), "");
}

#[test]
fn a_number_literal_is_a_run_of_digits() {
    let (rest, value) = Value::parse_from_raw("007abc").unwrap();
    assert_eq!(value, Value::Number(BigDecimal::from_str("7").unwrap()));
    assert_eq!(rest.fragment(), "abc");
    let big = "123456789012345678901234567890123456789012345678901234567890";
    let (_, value) = Value::parse_from_raw(big).unwrap();
    assert_eq!(value, Value::Number(BigDecimal::from_str(big).unwrap()));
    assert_ne!(
        Value::parse_from_raw("12").unwrap().1,
        Value::parse_from_raw("21").unwrap().1
    );
    assert!(Value::parse_from_raw("-1").is_err());
    assert!(Value::parse_from_raw("").is_err());
}

#[test]
fn a_batch_needs_a_statement() {
    let error = parse_multiple_queries("").unwrap_err();
    assert_eq!(error.span.offset, 0);
    assert_eq!(
        error.kind,
        BaseErrorKind::Expected(Expectation::Tag("select"))
    );
    assert_eq!(
        trail_of(&error),
        vec![
            (0, StackContext::Context("Select statement")),
            (0, StackContext::Context("Query")),
            (
                0,
                StackContext::Kind(toy_sql::parser::error::ErrorKind::Many1)
            ),
        ]
    );
}

#[test]
fn a_batch_fails_on_a_malformed_trailing_statement() {
    let error = parse_multiple_queries("select a from t; select from t;").unwrap_err();
    assert_eq!(error.span.offset, 17);
    assert_eq!(error.kind, BaseErrorKind::Expected(Expectation::Eof));
    let error = parse_multiple_queries("select a from t; insert into t values ('x);").unwrap_err();
    assert_eq!(
        error.kind,
        BaseErrorKind::Kind(toy_sql::parser::error::ErrorKind::TakeUntil)
    );
}

#[test]
fn a_list_ends_before_a_separator_that_nothing_follows() {
    let error = parse_sql_query("insert into t values (1, 2, );").unwrap_err();
    assert_eq!(error.span.offset, 26);
    assert_eq!(error.kind, BaseErrorKind::Expected(Expectation::Char(')')));
    assert_eq!(
        trail_of(&error),
        vec![
            (14, StackContext::Context("Values")),
            (0, StackContext::Context("Insert Statement")),
            (0, StackContext::Context("Query")),
        ]
    );
}

#[test]
fn statements_of_a_batch_may_follow_each_other_directly() {
    let (rest, queries) =
        Vec::<SqlQuery>::parse_from_raw("select a from t;select b from u;").unwrap();
    assert_eq!(queries.len(), 2);
    assert_eq!(rest.fragment(), "");
    assert_eq!(rest.location_offset(), 32);
}

#[test]
fn select_statement_prints_as_sql() {
    let statement = SelectStatement {
        table: "t1".to_string(),
        fields: vec!["foo".to_string(), "bar".to_string(), "baz".to_string()],
    };
    assert_eq!(statement.to_string(), "SELECT foo, bar, baz FROM t1");
    let printed = format!("{};", statement.to_string());
    assert_eq!(
        parse_sql_query(&printed).unwrap(),
        SqlQuery::Select(statement)
    );
    let bare = SelectStatement {
        table: "t".to_string(),
        fields: vec![],
    };
    assert_eq!(bare.to_string(), "SELECT  FROM t");
}

#[test]
fn column_types_have_names() {
    assert_eq!(SqlTypeInfo::String.name(), "String");
    assert_eq!(SqlTypeInfo::Int.name(), "Int");
}

#[test]
fn a_select_needs_a_column() {
    let error = parse_sql_query("select ;").unwrap_err();
    assert_eq!(error.span.offset, 7);
    assert_eq!(
        error.kind,
        BaseErrorKind::Kind(toy_sql::parser::error::ErrorKind::TakeWhile1)
    );
    assert_eq!(
        trail_of(&error),
        vec![
            (7, StackContext::Context("Select Columns")),
            (0, StackContext::Context("Select statement")),
            (0, StackContext::Context("Query")),
        ]
    );
}

#[test]
fn a_table_needs_a_name() {
    let error = parse_sql_query("create table (a int);").unwrap_err();
    assert_eq!(error.span.offset, 13);
    assert_eq!(
        error.kind,
        BaseErrorKind::Kind(toy_sql::parser::error::ErrorKind::TakeWhile1)
    );
    assert_eq!(
        trail_of(&error),
        vec![
            (13, StackContext::Context("Table Name")),
            (0, StackContext::Context("Create Table")),
            (0, StackContext::Context("Query")),
        ]
    );
}

#[test]
fn a_create_needs_a_column() {
    let error = parse_sql_query("create table t ();").unwrap_err();
    assert_eq!(error.span.offset, 16);
    assert_eq!(
        trail_of(&error),
        vec![
            (16, StackContext::Context("Column Name")),
            (16, StackContext::Context("Create Column")),
            (15, StackContext::Context("Column Definitions")),
            (0, StackContext::Context("Create Table")),
            (0, StackContext::Context("Query")),
        ]
    );
}

#[test]
fn a_statement_converts_from_text() {
    assert_eq!(
        SqlQuery::try_from("select a from t;").unwrap(),
        SqlQuery::Select(SelectStatement {
            table: "t".to_string(),
            fields: vec!["a".to_string()],
        })
    );
    assert_eq!(SqlQuery::try_from("select a from;").unwrap_err().span.offset, 13);
}

#[test]
fn source_positions_are_characters_and_offsets_are_bytes() {
    let source = toy_sql::parser::source::Source::new("aé  b");
    assert_eq!(source.len(), 5);
    assert_eq!(source.char_at(1), 'é');
    assert_eq!(source.offset(0), 0);
    assert_eq!(source.offset(2), 3);
    assert_eq!(source.offset(5), 6);
    assert_eq!(source.rest(2), "  b");
    assert_eq!(source.slice(1, 3), "é ");
    assert_eq!(
        source.scan(2, toy_sql::parser::source::CharClass::Whitespace),
        4
    );
    assert_eq!(
        source.scan(0, toy_sql::parser::source::CharClass::Alphanumeric),
        1
    );
    assert!(source.starts_with(4, "B", true));
    assert!(!source.starts_with(4, "B", false));
    assert!(!source.starts_with(4, "bb", true));
    assert_eq!(source.identifier(4), Ok((5, "b".to_string())));
    assert_eq!(source.multispace0(0), 0);
    assert_eq!(source.multispace1(2), Ok((4, ())));
    assert_eq!(source.eof(5), Ok((5, ())));
    assert!(source.eof(4).is_err());
    assert!(source.character(0, 'b').is_err());
    assert_eq!(source.character(4, 'b'), Ok((5, ())));
}
