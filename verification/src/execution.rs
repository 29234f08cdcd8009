//! The engine: a registry of tables, and the statements applied to it.

pub mod display;
pub mod error;
pub mod laws;
pub mod row;
pub mod table;

use crate::execution::error::reply;
use crate::execution::error::Fault;
use crate::execution::error::QueryExecutionError;
use crate::execution::error::Refusal;
use crate::execution::error::SQLError;
use crate::execution::table::mapping;
use crate::execution::table::selected;
use crate::execution::table::Selection;
use crate::execution::table::Table;
use crate::execution::table::TableIter;
use crate::execution::table::TableView;
use crate::parser::ast::parse_sql_query;
use crate::parser::ast::query;
use crate::parser::ast::SqlQuery;
use crate::parser::ast::SqlQueryView;
use crate::parser::commands::create::Column;
use crate::parser::commands::create::ColumnView;
use crate::parser::parse::reading;
use crate::parser::value::Value;
use crate::parser::value::ValueView;
use vstd::prelude::*;

verus! {

/// The mathematical value of a registry: its tables by name.
pub type Registry = Map<Seq<char>, TableView>;

/// The registry after `CREATE TABLE name (columns)`, and what the statement
/// answers: a name in use is refused and changes nothing; any other name gets
/// an empty table with these columns.
pub open spec fn created(registry: Registry, name: Seq<char>, columns: Seq<ColumnView>) -> (
    Registry,
    Result<(), Refusal>,
) {
    if registry.contains_key(name) {
        (registry, Err(Refusal::TableAlreadyExists(name)))
    } else {
        (registry.insert(name, TableView { columns, rows: Seq::empty() }), Ok(()))
    }
}

/// The registry after `INSERT INTO name VALUES (values)`, and what the
/// statement answers: an unknown name is refused; else the table decides.
pub open spec fn inserted(registry: Registry, name: Seq<char>, values: Seq<ValueView>) -> (
    Registry,
    Result<(), Refusal>,
) {
    if registry.contains_key(name) {
        let (table, answer) = registry[name].inserted(values);
        (registry.insert(name, table), answer)
    } else {
        (registry, Err(Refusal::TableNotFound(name)))
    }
}

/// What `SELECT fields FROM name` answers: an unknown table name is refused,
/// and so is a field that names no column of the table; else the answer is
/// all rows of the table, by ascending id, each with the columns that the
/// fields name, in the order of the fields.
pub open spec fn selection(registry: Registry, name: Seq<char>, fields: Seq<Seq<char>>) -> Result<
    Selection,
    Refusal,
> {
    if registry.contains_key(name) {
        match selected(registry[name].columns, fields) {
            Ok(columns) => Ok(
                Selection { columns, remaining: registry[name].selection(columns, 0) },
            ),
            Err(e) => Err(e),
        }
    } else {
        Err(Refusal::TableNotFound(name))
    }
}

/// The store of all tables.
#[derive(Debug)]
pub struct Execution {
    tables: Vec<(String, Table)>,
}

impl View for Execution {
    type V = Registry;

    closed spec fn view(&self) -> Registry {
        mapping(self.tables.deep_view())
    }
}

impl Default for Execution {
    fn default() -> (execution: Execution)
        ensures
            execution@ == Map::<Seq<char>, TableView>::empty(),
    {
        Execution::new()
    }
}

impl Execution {
    /// A registry without tables.
    pub fn new() -> (execution: Execution)
        ensures
            execution@ == Map::<Seq<char>, TableView>::empty(),
    {
        let execution = Execution { tables: Vec::new() };
        assert(execution.tables.deep_view() =~= Seq::empty());
        execution
    }

    /// The position of the table named `name`, if there is one.
    fn position(&self, name: &String) -> (position: Option<usize>)
        ensures
            match position {
                Some(i) => {
                    &&& i < self.tables.len()
                    &&& self@.contains_key(name@)
                    &&& self@[name@] == self.tables[i as int].1@
                    &&& self.tables[i as int].0@ == name@
                    &&& forall|j: int|
                        i < j < self.tables.len() ==> (#[trigger] self.tables[j]).0@ != name@
                },
                None => !self@.contains_key(name@),
            },
    {
        let ghost entries = self.tables.deep_view();
        let mut i = self.tables.len();
        assert(entries.take(i as int) =~= entries);
        while i > 0
            invariant
                0 <= i <= self.tables.len(),
                entries == self.tables.deep_view(),
                mapping(entries).contains_key(name@) == mapping(
                    entries.take(i as int),
                ).contains_key(name@),
                mapping(entries).contains_key(name@) ==> mapping(entries)[name@] == mapping(
                    entries.take(i as int),
                )[name@],
                forall|j: int| i <= j < self.tables.len() ==> (#[trigger] self.tables[j]).0@ != name@,
            decreases i,
        {
            assert(entries.take(i as int).drop_last() =~= entries.take(i - 1));
            assert(entries.take(i as int).last() == self.tables[i - 1].deep_view());
            i -= 1;
            if self.tables[i].0 == *name {
                return Some(i);
            }
        }
        None
    }

    /// Registers an empty table `name` with the columns `columns`, unless the
    /// name is in use.
    pub fn create(&mut self, name: String, columns: Vec<Column>) -> (result: Result<
        (),
        QueryExecutionError,
    >)
        ensures
            (final(self)@, reply(result)) == created(old(self)@, name@, columns.deep_view()),
    {
        match self.position(&name) {
            Some(_) => Err(QueryExecutionError::TableAlreadyExists(name)),
            None => {
                let ghost before = self.tables.deep_view();
                let table = Table::new(columns);
                self.tables.push((name, table));
                assert(self.tables.deep_view().drop_last() =~= before);
                Ok(())
            },
        }
    }

    /// Inserts `values` as a new row of the table `name`.
    pub fn insert(&mut self, name: &String, values: Vec<Value>) -> (result: Result<
        (),
        QueryExecutionError,
    >)
        ensures
            (final(self)@, reply(result)) == inserted(old(self)@, name@, values.deep_view()),
    {
        match self.position(name) {
            None => Err(QueryExecutionError::TableNotFound(name.clone())),
            Some(i) => {
                let ghost before = self.tables.deep_view();
                let result = self.tables[i].1.insert(values);
                proof {
                    let after = self.tables.deep_view();
                    assert(after =~= before.update(i as int, (name@, self.tables[i as int].1@)));
                    lemma_mapping_update(before, i as int, self.tables[i as int].1@);
                }
                result
            },
        }
    }

    /// The rows of the table `name`, each with the columns that `fields`
    /// name.
    pub fn select(&self, name: &String, fields: Vec<String>) -> (result: Result<
        TableIter<'_>,
        QueryExecutionError,
    >)
        ensures
            reply(result) == selection(self@, name@, fields.deep_view()),
    {
        match self.position(name) {
            None => Err(QueryExecutionError::TableNotFound(name.clone())),
            Some(i) => self.tables[i].1.select(fields),
        }
    }
}

/// What a statement answers.
#[derive(Debug)]
pub enum ExecResponse<'a> {
    /// The rows selected.
    Select(TableIter<'a>),
    /// A row was inserted.
    Insert,
    /// A table was created.
    Create,
}

/// The mathematical value of an [`ExecResponse`].
pub ghost enum Response {
    Select(Selection),
    Insert,
    Create,
}

impl<'a> View for ExecResponse<'a> {
    type V = Response;

    open spec fn view(&self) -> Response {
        match self {
            ExecResponse::Select(rows) => Response::Select(rows@),
            ExecResponse::Insert => Response::Insert,
            ExecResponse::Create => Response::Create,
        }
    }
}

/// The registry after the statement `query`, and what the statement answers.
pub open spec fn applied(registry: Registry, query: SqlQueryView) -> (
    Registry,
    Result<Response, Refusal>,
) {
    match query {
        SqlQueryView::Select(statement) => (
            registry,
            match selection(registry, statement.table, statement.fields) {
                Ok(rows) => Ok(Response::Select(rows)),
                Err(e) => Err(e),
            },
        ),
        SqlQueryView::Insert(statement) => {
            let (after, answer) = inserted(registry, statement.table, statement.values);
            (
                after,
                match answer {
                    Ok(_) => Ok(Response::Insert),
                    Err(e) => Err(e),
                },
            )
        },
        SqlQueryView::Create(statement) => {
            let (after, answer) = created(registry, statement.table, statement.columns);
            (
                after,
                match answer {
                    Ok(_) => Ok(Response::Create),
                    Err(e) => Err(e),
                },
            )
        },
    }
}

/// The registry after the SQL text `text`, which is to hold one statement,
/// and what the text answers: text that does not parse changes nothing.
pub open spec fn run_text(registry: Registry, text: Seq<char>) -> (
    Registry,
    Result<Response, Fault>,
) {
    match reading(text, query(text, 0)) {
        Ok(statement) => {
            let (after, answer) = applied(registry, statement);
            (
                after,
                match answer {
                    Ok(response) => Ok(response),
                    Err(e) => Err(Fault::Refused(e)),
                },
            )
        },
        Err(diagnostic) => (registry, Err(Fault::Unparsed(diagnostic))),
    }
}

/// What `result` is as a mathematical value.
pub open spec fn outcome<'a>(result: Result<ExecResponse<'a>, SQLError<'a>>) -> Result<
    Response,
    Fault,
> {
    match result {
        Ok(response) => Ok(response@),
        Err(e) => Err(e@),
    }
}

impl Execution {
    /// Applies the statement `query`.
    pub fn run(&mut self, query: SqlQuery) -> (result: Result<ExecResponse<'_>, QueryExecutionError>)
        ensures
            (final(self)@, reply(result)) == applied(old(self)@, query@),
    {
        match query {
            SqlQuery::Select(statement) => {
                match self.select(&statement.table, statement.fields) {
                    Ok(rows) => Ok(ExecResponse::Select(rows)),
                    Err(e) => Err(e),
                }
            },
            SqlQuery::Insert(statement) => {
                match self.insert(&statement.table, statement.values) {
                    Ok(_) => Ok(ExecResponse::Insert),
                    Err(e) => Err(e),
                }
            },
            SqlQuery::Create(statement) => {
                match self.create(statement.table, statement.columns) {
                    Ok(_) => Ok(ExecResponse::Create),
                    Err(e) => Err(e),
                }
            },
        }
    }

    /// Reads `query` as one statement and applies it.
    pub fn parse_and_run<'a>(&'a mut self, query: &'a str) -> (result: Result<
        ExecResponse<'a>,
        SQLError<'a>,
    >)
        ensures
            (final(self)@, outcome(result)) == run_text(old(self)@, query@),
    {
        match parse_sql_query(query) {
            Ok(statement) => match self.run(statement) {
                Ok(response) => Ok(response),
                Err(e) => Err(SQLError::from(e)),
            },
            Err(e) => Err(SQLError::from(e)),
        }
    }
}

/// Replacing the value of the last entry under a name maps that name to the
/// new value and leaves all other names as they are.
pub proof fn lemma_mapping_update<V>(entries: Seq<(Seq<char>, V)>, i: int, value: V)
    requires
        0 <= i < entries.len(),
        forall|j: int| i < j < entries.len() ==> (#[trigger] entries[j]).0 != entries[i].0,
    ensures
        mapping(entries.update(i, (entries[i].0, value))) == mapping(entries).insert(
            entries[i].0,
            value,
        ),
    decreases entries.len(),
{
    let updated = entries.update(i, (entries[i].0, value));
    if i == entries.len() - 1 {
        assert(updated.drop_last() =~= entries.drop_last());
        assert(mapping(updated) =~= mapping(entries).insert(entries[i].0, value));
    } else {
        let front = entries.drop_last();
        assert(front[i] == entries[i]);
        assert forall|j: int| i < j < front.len() implies (#[trigger] front[j]).0
            != front[i].0 by {
            assert(entries[j].0 != entries[i].0);
        }
        lemma_mapping_update(front, i, value);
        assert(updated.drop_last() =~= front.update(i, (entries[i].0, value)));
        assert(entries[entries.len() - 1].0 != entries[i].0);
        assert(mapping(updated) =~= mapping(entries).insert(entries[i].0, value));
    }
}

} // verus!
