use bigdecimal::BigDecimal;
use std::rc::Rc;
use std::str::FromStr;
use toy_sql::execution::error::QueryExecutionError;
use toy_sql::execution::error::SQLError;
use toy_sql::execution::row::Row;
use toy_sql::execution::table::ColumnInfo;
use toy_sql::execution::table::StoredRow;
use toy_sql::execution::table::Table;
use toy_sql::execution::table::TableIter;
use toy_sql::execution::ExecResponse;
use toy_sql::execution::Execution;
use toy_sql::parser::ast::parse_sql_query;
use toy_sql::parser::commands::create::Column;
use toy_sql::parser::commands::create::SqlTypeInfo;
use toy_sql::parser::error::BaseErrorKind;
use toy_sql::parser::error::Expectation;
use toy_sql::parser::value::Value;

fn number(digits: &str) -> Value {
    Value::Number(BigDecimal::from_str(digits).unwrap())
}

fn string(text: &str) -> Value {
    Value::String(text.to_string())
}

fn column(name: &str, type_info: SqlTypeInfo) -> Column {
    Column {
        name: name.to_string(),
        type_info,
    }
}

fn two_columns() -> Vec<Column> {
    vec![
        column("col1", SqlTypeInfo::Int),
        column("col2", SqlTypeInfo::String),
    ]
}

fn names(columns: &ColumnInfo) -> Vec<String> {
    (0..columns.len())
        .map(|i| columns.column(i).name.clone())
        .collect()
}

fn all_rows(mut rows: TableIter<'_>) -> Vec<Row<'_>> {
    let mut found = Vec::new();
    while let Some(row) = rows.next() {
        found.push(row);
    }
    found
}

#[test]
fn create_insert_select_in_requested_order() {
    let mut execution = Execution::new();
    assert!(matches!(
        execution.parse_and_run("CREATE TABLE t1 (col1 int, col2 string);"),
        Ok(ExecResponse::Create)
    ));
    assert!(matches!(
        execution.parse_and_run("INSERT INTO t1 VALUES (1, 'a');"),
        Ok(ExecResponse::Insert)
    ));
    let response = execution
        .parse_and_run("SELECT col2, col1 FROM t1;")
        .unwrap();
    let rows = match response {
        ExecResponse::Select(rows) => rows,
        other => panic!("expected rows, got {other:?}"),
    };
    assert_eq!(
        names(rows.columns()),
        vec!["col2".to_string(), "col1".to_string()]
    );
    assert_eq!(rows.columns().column(0).type_info, SqlTypeInfo::String);
    assert_eq!(rows.columns().column(1).type_info, SqlTypeInfo::Int);
    let rows = all_rows(rows);
    assert_eq!(rows.len(), 1);
    assert_eq!(rows[0].id(), 0);
    assert_eq!(rows[0].get(&"col2".to_string()), string("a"));
    assert_eq!(rows[0].get(&"col1".to_string()), number("1"));
    assert_eq!(
        names(rows[0].columns()),
        vec!["col2".to_string(), "col1".to_string()]
    );
}

#[test]
fn select_of_missing_column_is_refused_and_table_unaffected() {
    let mut execution = Execution::new();
    execution
        .parse_and_run("CREATE TABLE t1 (foo int, baz string);")
        .unwrap();
    execution
        .parse_and_run("INSERT INTO t1 VALUES (7, 'x');")
        .unwrap();
    match execution.parse_and_run("SELECT foo, bar FROM t1;") {
        Err(SQLError::QueryExecutionError(error)) => {
            assert_eq!(
                error,
                QueryExecutionError::ColumnDoesNotExist("bar".to_string())
            )
        }
        other => panic!("expected a refusal, got {other:?}"),
    }
    let rows = execution
        .select(&"t1".to_string(), vec!["foo".to_string(), "baz".to_string()])
        .unwrap();
    let rows = all_rows(rows);
    assert_eq!(rows.len(), 1);
    assert_eq!(rows[0].get(&"foo".to_string()), number("7"));
    assert_eq!(rows[0].get(&"baz".to_string()), string("x"));
}

#[test]
fn first_missing_column_is_the_one_reported() {
    let table = Table::new(two_columns());
    let error = table
        .select(vec![
            "col1".to_string(),
            "nope".to_string(),
            "neither".to_string(),
        ])
        .unwrap_err();
    assert_eq!(
        error,
        QueryExecutionError::ColumnDoesNotExist("nope".to_string())
    );
}

#[test]
fn creating_a_table_twice_is_refused() {
    let mut execution = Execution::new();
    assert_eq!(execution.create("t1".to_string(), two_columns()), Ok(()));
    assert_eq!(
        execution.create(
            "t1".to_string(),
            vec![column("other", SqlTypeInfo::String)]
        ),
        Err(QueryExecutionError::TableAlreadyExists("t1".to_string()))
    );
    let rows = execution
        .select(&"t1".to_string(), vec!["col1".to_string()])
        .unwrap();
    assert_eq!(names(rows.columns()), vec!["col1".to_string()]);
    assert_eq!(
        execution
            .select(&"t1".to_string(), vec!["other".to_string()])
            .unwrap_err(),
        QueryExecutionError::ColumnDoesNotExist("other".to_string())
    );
}

#[test]
fn unknown_table_is_refused() {
    let mut execution = Execution::new();
    assert_eq!(
        execution.insert(&"ghost".to_string(), vec![number("1")]),
        Err(QueryExecutionError::TableNotFound("ghost".to_string()))
    );
    assert_eq!(
        execution
            .select(&"ghost".to_string(), vec!["a".to_string()])
            .unwrap_err(),
        QueryExecutionError::TableNotFound("ghost".to_string())
    );
    match execution.parse_and_run("select a from ghost;") {
        Err(SQLError::QueryExecutionError(error)) => {
            assert_eq!(
                error,
                QueryExecutionError::TableNotFound("ghost".to_string())
            )
        }
        other => panic!("expected a refusal, got {other:?}"),
    }
}

#[test]
fn mismatched_insert_leaves_the_table_as_it_was() {
    let mut table = Table::new(two_columns());
    assert_eq!(table.insert(vec![number("1"), string("a")]), Ok(()));
    assert_eq!(table.len(), 1);
    assert_eq!(
        table.insert(vec![string("oops"), string("b")]),
        Err(QueryExecutionError::InsertTypeMismatch(
            SqlTypeInfo::Int,
            string("oops")
        ))
    );
    assert_eq!(table.len(), 1);
    assert_eq!(
        table.insert(vec![number("2"), number("3")]),
        Err(QueryExecutionError::InsertTypeMismatch(
            SqlTypeInfo::String,
            number("3")
        ))
    );
    assert_eq!(table.len(), 1);
    let rows = all_rows(table.iter());
    assert_eq!(rows.len(), 1);
    assert_eq!(rows[0].get(&"col1".to_string()), number("1"));
}

#[test]
fn first_mismatch_is_the_one_reported() {
    let mut table = Table::new(two_columns());
    assert_eq!(
        table.insert(vec![string("x"), number("3")]),
        Err(QueryExecutionError::InsertTypeMismatch(
            SqlTypeInfo::Int,
            string("x")
        ))
    );
}

#[test]
fn row_ids_count_up_from_zero() {
    let mut table = Table::new(two_columns());
    for i in 0..5 {
        assert_eq!(
            table.insert(vec![number(&i.to_string()), string("v")]),
            Ok(())
        );
        let _ = table.insert(vec![string("refused"), string("v")]);
    }
    let rows = all_rows(table.select(vec!["col1".to_string()]).unwrap());
    assert_eq!(rows.len(), 5);
    for (i, row) in rows.iter().enumerate() {
        assert_eq!(row.id(), i);
        assert_eq!(row.get(&"col1".to_string()), number(&i.to_string()));
    }
}

#[test]
fn a_row_shows_only_the_selected_columns() {
    let mut table = Table::new(two_columns());
    table.insert(vec![number("1"), string("a")]).unwrap();
    let rows = all_rows(table.select(vec!["col2".to_string()]).unwrap());
    assert_eq!(rows[0].try_get(&"col2".to_string()), Ok(string("a")));
    assert_eq!(
        rows[0].try_get(&"col1".to_string()),
        Err(QueryExecutionError::ColumnDoesNotExist("col1".to_string()))
    );
}

#[test]
fn fewer_values_than_columns_leave_columns_unset() {
    let mut table = Table::new(two_columns());
    assert_eq!(table.insert(vec![number("1")]), Ok(()));
    let rows = all_rows(table.iter());
    assert_eq!(rows.len(), 1);
    assert_eq!(rows[0].try_get(&"col1".to_string()), Ok(number("1")));
    assert_eq!(
        rows[0].try_get(&"col2".to_string()),
        Err(QueryExecutionError::ColumnDoesNotExist("col2".to_string()))
    );
}

#[test]
fn values_beyond_the_last_column_are_left_out() {
    let mut table = Table::new(two_columns());
    assert_eq!(
        table.insert(vec![number("1"), string("a"), string("extra")]),
        Ok(())
    );
    let rows = all_rows(table.iter());
    assert_eq!(rows[0].get(&"col1".to_string()), number("1"));
    assert_eq!(rows[0].get(&"col2".to_string()), string("a"));
}

#[test]
fn with_two_columns_of_one_name_the_later_value_stays() {
    let mut table = Table::new(vec![
        column("a", SqlTypeInfo::Int),
        column("a", SqlTypeInfo::Int),
    ]);
    table.insert(vec![number("1"), number("2")]).unwrap();
    let rows = all_rows(table.select(vec!["a".to_string()]).unwrap());
    assert_eq!(rows[0].get(&"a".to_string()), number("2"));
}

#[test]
fn an_iterator_is_single_pass_and_a_new_one_starts_over() {
    let mut table = Table::new(two_columns());
    table.insert(vec![number("1"), string("a")]).unwrap();
    table.insert(vec![number("2"), string("b")]).unwrap();
    let mut rows = table.iter();
    assert_eq!(rows.next().unwrap().id(), 0);
    assert_eq!(rows.next().unwrap().id(), 1);
    assert!(rows.next().is_none());
    assert!(rows.next().is_none());
    let mut again = table.iter();
    assert_eq!(again.next().unwrap().id(), 0);
}

#[test]
fn find_column_gives_the_first_of_the_name() {
    let columns = ColumnInfo::new(vec![
        column("a", SqlTypeInfo::Int),
        column("b", SqlTypeInfo::String),
        column("a", SqlTypeInfo::String),
    ]);
    assert_eq!(
        columns.find_column(&"a".to_string()),
        Ok(&column("a", SqlTypeInfo::Int))
    );
    assert_eq!(
        columns.find_column(&"b".to_string()),
        Ok(&column("b", SqlTypeInfo::String))
    );
    assert_eq!(
        columns.find_column(&"c".to_string()),
        Err(QueryExecutionError::ColumnDoesNotExist("c".to_string()))
    );
    let listed: Vec<&Column> = columns.iter().collect();
    assert_eq!(listed.len(), 3);
    assert_eq!(listed[2], &column("a", SqlTypeInfo::String));
}

#[test]
fn stored_row_keeps_the_last_value_of_a_name() {
    let mut row = StoredRow::new();
    assert_eq!(row.get(&"a".to_string()), None);
    row.insert("a".to_string(), number("1"));
    row.insert("b".to_string(), string("x"));
    row.insert("a".to_string(), number("2"));
    assert_eq!(row.get(&"a".to_string()), Some(&number("2")));
    assert_eq!(row.get(&"b".to_string()), Some(&string("x")));
    assert_eq!(row.get(&"c".to_string()), None);
}

#[test]
fn a_row_built_by_hand_answers_by_name() {
    let name = "a".to_string();
    let value = number("10");
    let later = number("11");
    let columns = Rc::new(ColumnInfo::new(vec![column("a", SqlTypeInfo::Int)]));
    let row = Row::new(columns, 3, vec![(&name, &value), (&name, &later)]);
    assert_eq!(row.id(), 3);
    assert_eq!(row.get(&name), number("11"));
    assert_eq!(names(row.columns()), vec!["a".to_string()]);
}

#[test]
fn run_applies_a_parsed_statement() {
    let mut execution = Execution::new();
    let create = parse_sql_query("create table people (name string, age int);").unwrap();
    assert!(matches!(execution.run(create), Ok(ExecResponse::Create)));
    let insert = parse_sql_query("insert into people values ('Ann', 41);").unwrap();
    assert!(matches!(execution.run(insert), Ok(ExecResponse::Insert)));
    let mismatch = parse_sql_query("insert into people values (41, 'Ann');").unwrap();
    assert_eq!(
        execution.run(mismatch).unwrap_err(),
        QueryExecutionError::InsertTypeMismatch(SqlTypeInfo::String, number("41"))
    );
    let select = parse_sql_query("select age from people;").unwrap();
    match execution.run(select) {
        Ok(ExecResponse::Select(rows)) => {
            let rows = all_rows(rows);
            assert_eq!(rows.len(), 1);
            assert_eq!(rows[0].get(&"age".to_string()), number("41"));
        }
        other => panic!("expected rows, got {other:?}"),
    }
}

#[test]
fn text_that_does_not_parse_changes_nothing() {
    let mut execution = Execution::new();
    match execution.parse_and_run("create table t1 (a int)") {
        Err(SQLError::ParsingError(error)) => {
            assert_eq!(error.span.offset, 23);
            assert_eq!(error.kind, BaseErrorKind::Expected(Expectation::Char(';')));
        }
        other => panic!("expected a diagnostic, got {other:?}"),
    }
    assert_eq!(
        execution
            .select(&"t1".to_string(), vec!["a".to_string()])
            .unwrap_err(),
        QueryExecutionError::TableNotFound("t1".to_string())
    );
}

#[test]
fn errors_convert_into_the_common_error() {
    let refused = QueryExecutionError::TableNotFound("t".to_string());
    assert_eq!(
        SQLError::from(refused),
        SQLError::QueryExecutionError(QueryExecutionError::TableNotFound("t".to_string()))
    );
    let diagnostic = parse_sql_query("nonsense").unwrap_err();
    assert!(matches!(
        SQLError::from(diagnostic),
        SQLError::ParsingError(_)
    ));
}

#[test]
fn a_selection_lays_out_as_a_grid() {
    let mut table = Table::new(two_columns());
    table.insert(vec![number("1"), string("a")]).unwrap();
    table.insert(vec![number("2"), string("b")]).unwrap();
    let rows = table
        .select(vec!["col2".to_string(), "col1".to_string()])
        .unwrap();
    let grid = toy_sql::execution::display::tabulate(rows).unwrap();
    assert_eq!(grid.header, vec!["col2".to_string(), "col1".to_string()]);
    assert_eq!(
        grid.records,
        vec![
            vec![string("a"), number("1")],
            vec![string("b"), number("2")],
        ]
    );
    let mut rows = table.iter();
    rows.next();
    let grid = toy_sql::execution::display::tabulate(rows).unwrap();
    assert_eq!(grid.records, vec![vec![number("2"), string("b")]]);
}

#[test]
fn a_grid_needs_every_selected_column_in_every_row() {
    let mut table = Table::new(two_columns());
    table.insert(vec![number("1"), string("a")]).unwrap();
    table.insert(vec![number("2")]).unwrap();
    assert_eq!(
        toy_sql::execution::display::tabulate(table.iter()),
        Err(QueryExecutionError::ColumnDoesNotExist("col2".to_string()))
    );
    let rows = table.select(vec!["col1".to_string()]).unwrap();
    let grid = toy_sql::execution::display::tabulate(rows).unwrap();
    assert_eq!(grid.records, vec![vec![number("1")], vec![number("2")]]);
}

#[test]
fn defaults_are_empty() {
    assert_eq!(ColumnInfo::default().len(), 0);
    assert_eq!(Table::default().len(), 0);
    assert_eq!(StoredRow::default().get(&"a".to_string()), None);
    assert_eq!(
        Execution::default()
            .select(&"t".to_string(), vec![])
            .unwrap_err(),
        QueryExecutionError::TableNotFound("t".to_string())
    );
}

#[test]
fn values_clone_to_equal_values() {
    let value = number("12345678901234567890");
    assert_eq!(value.clone(), value);
    let text = string("abc");
    assert_eq!(text.clone(), text);
    let columns = ColumnInfo::new(two_columns());
    assert_eq!(names(&columns.clone()), names(&columns));
}

#[test]
fn stored_values_fit_their_columns() {
    let mut table = Table::new(two_columns());
    table.insert(vec![number("1"), string("a")]).unwrap();
    let _ = table.insert(vec![string("no"), string("b")]);
    table.insert(vec![number("2")]).unwrap();
    table
        .insert(vec![number("3"), string("c"), number("4")])
        .unwrap();
    let rows = all_rows(table.iter());
    assert_eq!(rows.len(), 3);
    for row in &rows {
        for i in 0..table.columns().len() {
            let column = table.columns().column(i);
            match (row.try_get(&column.name), column.type_info) {
                (Ok(Value::Number(_)), SqlTypeInfo::Int) => {}
                (Ok(Value::String(_)), SqlTypeInfo::String) => {}
                (Err(QueryExecutionError::ColumnDoesNotExist(name)), _) => {
                    assert_eq!(name, "col2");
                    assert_eq!(row.id(), 1);
                }
                other => panic!("value does not fit its column: {other:?}"),
            }
        }
    }
}
