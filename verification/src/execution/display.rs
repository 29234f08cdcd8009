//! A selection laid out for display: a header and one record for each row.

use crate::execution::error::QueryExecutionError;
use crate::execution::error::Refusal;
use crate::execution::row::Row;
use crate::execution::row::RowView;
use crate::execution::table::TableIter;
use crate::parser::commands::create::ColumnView;
use crate::parser::value::Value;
use crate::parser::value::ValueView;
use vstd::prelude::*;

verus! {

/// The rows of a selection as a grid of values.
#[derive(Debug, PartialEq, Eq)]
pub struct Grid {
    /// The names of the columns selected, in their order.
    pub header: Vec<String>,
    /// For each row, its values in the order of the header.
    pub records: Vec<Vec<Value>>,
}

/// The mathematical value of a [`Grid`].
pub ghost struct GridView {
    pub header: Seq<Seq<char>>,
    pub records: Seq<Seq<ValueView>>,
}

impl View for Grid {
    type V = GridView;

    open spec fn view(&self) -> GridView {
        GridView { header: self.header.deep_view(), records: self.records.deep_view() }
    }
}

/// The names of `columns`, in their order.
pub open spec fn header(columns: Seq<ColumnView>) -> Seq<Seq<char>> {
    Seq::new(columns.len(), |i: int| columns[i].name)
}

/// The values that `row` holds under the first `count` of `names`, in their
/// order; or the first of those names under which it holds none, as the column
/// that does not exist.
pub open spec fn record(row: RowView, names: Seq<Seq<char>>, count: int) -> Result<
    Seq<ValueView>,
    Refusal,
>
    decreases count,
{
    if count <= 0 {
        Ok(Seq::empty())
    } else {
        match record(row, names, count - 1) {
            Ok(values) => if row.data.contains_key(names[count - 1]) {
                Ok(values.push(row.data[names[count - 1]]))
            } else {
                Err(Refusal::ColumnDoesNotExist(names[count - 1]))
            },
            Err(e) => Err(e),
        }
    }
}

/// The records of the first `count` of `rows`; or what the first of them
/// without a full record lacks.
pub open spec fn records(rows: Seq<RowView>, names: Seq<Seq<char>>, count: int) -> Result<
    Seq<Seq<ValueView>>,
    Refusal,
>
    decreases count,
{
    if count <= 0 {
        Ok(Seq::empty())
    } else {
        match records(rows, names, count - 1) {
            Ok(found) => match record(rows[count - 1], names, names.len() as int) {
                Ok(values) => Ok(found.push(values)),
                Err(e) => Err(e),
            },
            Err(e) => Err(e),
        }
    }
}

/// The grid of a selection: the names of its columns, and the record of each
/// row yet to come; or what the first row without a full record lacks.
pub open spec fn grid(columns: Seq<ColumnView>, rows: Seq<RowView>) -> Result<GridView, Refusal> {
    match records(rows, header(columns), rows.len() as int) {
        Ok(found) => Ok(GridView { header: header(columns), records: found }),
        Err(e) => Err(e),
    }
}

/// What `result` is as a mathematical value.
pub open spec fn laid_out(result: Result<Grid, QueryExecutionError>) -> Result<GridView, Refusal> {
    match result {
        Ok(grid) => Ok(grid@),
        Err(e) => Err(e@),
    }
}

/// The values of `row` under `names`, in their order.
fn record_of(row: &Row<'_>, names: &Vec<String>) -> (result: Result<
    Vec<Value>,
    QueryExecutionError,
>)
    ensures
        match result {
            Ok(values) => record(row@, names.deep_view(), names.len() as int) == Ok::<
                Seq<ValueView>,
                Refusal,
            >(values.deep_view()),
            Err(e) => record(row@, names.deep_view(), names.len() as int) == Err::<
                Seq<ValueView>,
                Refusal,
            >(e@),
        },
{
    let ghost wanted = names.deep_view();
    let mut values: Vec<Value> = Vec::new();
    let mut i: usize = 0;
    assert(values.deep_view() =~= Seq::empty());
    while i < names.len()
        invariant
            0 <= i <= names.len(),
            wanted == names.deep_view(),
            record(row@, wanted, i as int) == Ok::<Seq<ValueView>, Refusal>(values.deep_view()),
        decreases names.len() - i,
    {
        assert(wanted[i as int] == names[i as int]@);
        match row.try_get(&names[i]) {
            Ok(value) => {
                let ghost before = values.deep_view();
                values.push(value);
                assert(values.deep_view() =~= before.push(value@));
            },
            Err(e) => {
                proof {
                    lemma_record_refused(row@, wanted, i + 1, wanted.len() as int);
                }
                return Err(e);
            },
        }
        i += 1;
    }
    Ok(values)
}

/// Lays the rows that `rows` has yet to yield out as a grid.
pub fn tabulate(rows: TableIter<'_>) -> (result: Result<Grid, QueryExecutionError>)
    ensures
        laid_out(result) == grid(rows@.columns, rows@.remaining),
{
    let ghost columns = rows@.columns;
    let ghost all = rows@.remaining;
    let mut cursor = rows;
    let mut names: Vec<String> = Vec::new();
    let mut i: usize = 0;
    while i < cursor.columns().len()
        invariant
            0 <= i <= columns.len(),
            cursor@.columns == columns,
            cursor@.remaining == all,
            names.deep_view() == header(columns).take(i as int),
        decreases columns.len() - i,
    {
        let ghost before = names.deep_view();
        names.push(cursor.columns().column(i).name.clone());
        assert(names.deep_view() =~= before.push(columns[i as int].name));
        assert(names.deep_view() =~= header(columns).take(i + 1));
        i += 1;
    }
    assert(header(columns).take(i as int) =~= header(columns));
    let mut found: Vec<Vec<Value>> = Vec::new();
    let ghost mut seen: int = 0;
    assert(found.deep_view() =~= Seq::empty());
    assert(all.skip(0) =~= all);
    loop
        invariant
            0 <= seen <= all.len(),
            columns == rows@.columns,
            all == rows@.remaining,
            cursor@.columns == columns,
            cursor@.remaining == all.skip(seen),
            names.deep_view() == header(columns),
            records(all, header(columns), seen) == Ok::<Seq<Seq<ValueView>>, Refusal>(
                found.deep_view(),
            ),
        decreases all.len() - seen,
    {
        match cursor.next() {
            None => {
                return Ok(Grid { header: names, records: found });
            },
            Some(row) => {
                assert(row@ == all[seen]);
                assert(all.skip(seen).drop_first() =~= all.skip(seen + 1));
                match record_of(&row, &names) {
                    Ok(values) => {
                        let ghost before = found.deep_view();
                        found.push(values);
                        assert(found.deep_view() =~= before.push(values.deep_view()));
                    },
                    Err(e) => {
                        proof {
                            lemma_records_refused(
                                all,
                                header(columns),
                                seen + 1,
                                all.len() as int,
                            );
                        }
                        return Err(e);
                    },
                }
                proof {
                    seen = seen + 1;
                }
            },
        }
    }
}

/// A name without a value among the first `count` names is the outcome for
/// any greater count too.
pub proof fn lemma_record_refused(row: RowView, names: Seq<Seq<char>>, count: int, more: int)
    requires
        count <= more,
        record(row, names, count) is Err,
    ensures
        record(row, names, more) == record(row, names, count),
    decreases more - count,
{
    if count < more {
        lemma_record_refused(row, names, count, more - 1);
    }
}

/// A row without a full record among the first `count` rows is the outcome
/// for any greater count too.
pub proof fn lemma_records_refused(
    rows: Seq<RowView>,
    names: Seq<Seq<char>>,
    count: int,
    more: int,
)
    requires
        count <= more,
        records(rows, names, count) is Err,
    ensures
        records(rows, names, more) == records(rows, names, count),
    decreases more - count,
{
    if count < more {
        lemma_records_refused(rows, names, count, more - 1);
    }
}

} // verus!
