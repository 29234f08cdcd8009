//! A row of a result: the selected columns of one stored row.

use crate::execution::error::QueryExecutionError;
use crate::execution::error::Refusal;
use crate::execution::table::mapping;
use crate::execution::table::ColumnInfo;
use crate::parser::commands::create::ColumnView;
use crate::parser::value::Value;
use crate::parser::value::ValueView;
use std::rc::Rc;
use vstd::prelude::*;

verus! {

/// `Rc::clone` on the shared columns of a result: another pointer to the same
/// columns.
#[verifier::external_body]
pub(crate) fn share(columns: &Rc<ColumnInfo>) -> (shared: Rc<ColumnInfo>)
    ensures
        shared == *columns,
{
    Rc::clone(columns)
}

/// A row in the result of a query. It borrows its values from the table.
#[derive(Debug)]
pub struct Row<'a> {
    id: usize,
    columns: Rc<ColumnInfo>,
    data: Vec<(&'a String, &'a Value)>,
}

/// The mathematical value of a [`Row`].
pub ghost struct RowView {
    /// The id of the stored row.
    pub id: nat,
    /// The columns selected.
    pub columns: Seq<ColumnView>,
    /// The values of the row, by column name.
    pub data: Map<Seq<char>, ValueView>,
}

impl<'a> View for Row<'a> {
    type V = RowView;

    closed spec fn view(&self) -> RowView {
        RowView {
            id: self.id as nat,
            columns: self.columns@,
            data: mapping(self.data.deep_view()),
        }
    }
}

impl<'a> Row<'a> {
    /// The row `id` with the columns `columns` and the entries `data`, of
    /// which a later one takes precedence over an earlier one of the same
    /// name.
    pub fn new(columns: Rc<ColumnInfo>, id: usize, data: Vec<(&'a String, &'a Value)>) -> (row:
        Self)
        ensures
            row@ == (RowView {
                id: id as nat,
                columns: columns@,
                data: mapping(data.deep_view()),
            }),
    {
        Self { id, columns, data }
    }

    /// The id of the stored row.
    pub fn id(&self) -> (id: usize)
        ensures
            id == self@.id,
    {
        self.id
    }

    /// The columns selected.
    pub fn columns(&self) -> (columns: &ColumnInfo)
        ensures
            columns@ == self@.columns,
    {
        &*self.columns
    }

    /// A copy of the value of the column `column`, which the row must have.
    pub fn get(&self, column: &String) -> (value: Value)
        requires
            self@.data.contains_key(column@),
        ensures
            value@ == self@.data[column@],
    {
        match self.try_get(column) {
            Ok(value) => value,
            Err(_) => unreached(),
        }
    }

    /// A copy of the value of the column `column`; without one, the name
    /// comes back as the column that does not exist.
    pub fn try_get(&self, column: &String) -> (value: Result<Value, QueryExecutionError>)
        ensures
            match value {
                Ok(value) => self@.data.contains_key(column@) && value@ == self@.data[column@],
                Err(e) => !self@.data.contains_key(column@) && e@ == Refusal::ColumnDoesNotExist(
                    column@,
                ),
            },
    {
        let ghost entries = self.data.deep_view();
        let mut i = self.data.len();
        assert(entries.take(i as int) =~= entries);
        while i > 0
            invariant
                0 <= i <= self.data.len(),
                entries == self.data.deep_view(),
                mapping(entries).contains_key(column@) == mapping(
                    entries.take(i as int),
                ).contains_key(column@),
                mapping(entries).contains_key(column@) ==> mapping(entries)[column@] == mapping(
                    entries.take(i as int),
                )[column@],
            decreases i,
        {
            assert(entries.take(i as int).drop_last() =~= entries.take(i - 1));
            assert(entries.take(i as int).last() == self.data[i - 1].deep_view());
            i -= 1;
            if *self.data[i].0 == *column {
                return Ok(self.data[i].1.clone());
            }
        }
        Err(QueryExecutionError::ColumnDoesNotExist(column.clone()))
    }
}

} // verus!
