//! What holds of every table and every registry, whatever statements came
//! before.

use crate::execution::created;
use crate::execution::error::Refusal;
use crate::execution::inserted;
use crate::execution::selection;
use crate::execution::table::first_index;
use crate::execution::table::fits;
use crate::execution::table::fits_some;
use crate::execution::table::has_column;
use crate::execution::table::lemma_first_index;
use crate::execution::table::lemma_row_of_fits;
use crate::execution::table::paired;
use crate::execution::table::row_fits;
use crate::execution::table::row_of;
use crate::execution::table::selected;
use crate::execution::table::Selection;
use crate::execution::table::TableView;
use crate::execution::Registry;
use crate::parser::commands::create::ColumnView;
use crate::parser::value::ValueView;
use vstd::prelude::*;

verus! {

/// Once a table has been created, a second creation under the same name is
/// refused as a table that already exists, whatever its columns, and the
/// registry stays as it is: the table keeps the columns it was created with.
pub proof fn create_twice_is_refused(
    registry: Registry,
    name: Seq<char>,
    first: Seq<ColumnView>,
    second: Seq<ColumnView>,
)
    requires
        created(registry, name, first).1 is Ok,
    ensures
        created(created(registry, name, first).0, name, second) == (
            created(registry, name, first).0,
            Err::<(), Refusal>(Refusal::TableAlreadyExists(name)),
        ),
        created(registry, name, first).0[name].columns == first,
{
}

/// Among the first `count` values, the position of the first that does not
/// fit its column; `count` if all fit.
pub open spec fn first_mismatch(columns: Seq<ColumnView>, values: Seq<ValueView>, count: int) -> int
    decreases count,
{
    if count <= 0 {
        0
    } else {
        let before = first_mismatch(columns, values, count - 1);
        if before < count - 1 {
            before
        } else if fits(columns[count - 1].type_info, values[count - 1]) {
            count
        } else {
            count - 1
        }
    }
}

/// `first_mismatch` is the position of a value that does not fit, all values
/// before it fit, and it decides what `row_of` gives.
pub proof fn lemma_first_mismatch(columns: Seq<ColumnView>, values: Seq<ValueView>, count: int)
    requires
        0 <= count,
    ensures
        0 <= first_mismatch(columns, values, count) <= count,
        forall|i: int|
            0 <= i < first_mismatch(columns, values, count) ==> fits(
                columns[i].type_info,
                #[trigger] values[i],
            ),
        first_mismatch(columns, values, count) < count ==> {
            let first = first_mismatch(columns, values, count);
            &&& !fits(columns[first].type_info, values[first])
            &&& row_of(columns, values, count) == Err::<Map<Seq<char>, ValueView>, Refusal>(
                Refusal::InsertTypeMismatch(columns[first].type_info, values[first]),
            )
        },
        first_mismatch(columns, values, count) == count ==> row_of(columns, values, count) is Ok,
    decreases count,
{
    if count > 0 {
        lemma_first_mismatch(columns, values, count - 1);
    }
}

/// Where a value that has a column to go to does not fit that column, the
/// insertion is refused with the mismatch of the first such value, and the
/// table stays as it is: no row is added.
pub proof fn mismatch_inserts_nothing(table: TableView, values: Seq<ValueView>, at: int)
    requires
        0 <= at < paired(table.columns, values),
        !fits(table.columns[at].type_info, values[at]),
    ensures
        table.inserted(values).0 == table,
        table.inserted(values).0.rows.len() == table.rows.len(),
        ({
            let first = first_mismatch(table.columns, values, paired(table.columns, values));
            &&& 0 <= first <= at
            &&& table.inserted(values).1 == Err::<(), Refusal>(
                Refusal::InsertTypeMismatch(table.columns[first].type_info, values[first]),
            )
        }),
{
    lemma_first_mismatch(table.columns, values, paired(table.columns, values));
}

/// The same of a registry: an insertion with a value that does not fit its
/// column leaves every table as it is.
pub proof fn mismatch_leaves_registry(
    registry: Registry,
    name: Seq<char>,
    values: Seq<ValueView>,
    at: int,
)
    requires
        registry.contains_key(name),
        0 <= at < paired(registry[name].columns, values),
        !fits(registry[name].columns[at].type_info, values[at]),
    ensures
        inserted(registry, name, values).0 == registry,
        inserted(registry, name, values).1 is Err,
{
    mismatch_inserts_nothing(registry[name], values, at);
    assert(registry.insert(name, registry[name]) =~= registry);
}

/// Among `names`, the position of the first that names none of `columns`;
/// the number of names if each names one.
pub open spec fn first_unknown(columns: Seq<ColumnView>, names: Seq<Seq<char>>) -> int
    decreases names.len(),
{
    if names.len() == 0 {
        0
    } else {
        let before = first_unknown(columns, names.drop_last());
        if before < names.len() - 1 {
            before
        } else if has_column(columns, names.last()) {
            names.len() as int
        } else {
            names.len() - 1
        }
    }
}

/// `first_unknown` is the position of a name without a column, all names
/// before it have one, and it decides what `selected` gives.
pub proof fn lemma_first_unknown(columns: Seq<ColumnView>, names: Seq<Seq<char>>)
    ensures
        0 <= first_unknown(columns, names) <= names.len(),
        forall|i: int|
            0 <= i < first_unknown(columns, names) ==> has_column(columns, #[trigger] names[i]),
        first_unknown(columns, names) < names.len() ==> {
            let first = first_unknown(columns, names);
            &&& !has_column(columns, names[first])
            &&& selected(columns, names) == Err::<Seq<ColumnView>, Refusal>(
                Refusal::ColumnDoesNotExist(names[first]),
            )
        },
        first_unknown(columns, names) == names.len() ==> {
            &&& selected(columns, names) is Ok
            &&& selected(columns, names)->Ok_0.len() == names.len()
            &&& forall|i: int|
                0 <= i < names.len() ==> (#[trigger] selected(columns, names)->Ok_0[i])
                    == columns[first_index(columns, names[i])]
        },
    decreases names.len(),
{
    if names.len() > 0 {
        let front = names.drop_last();
        lemma_first_unknown(columns, front);
        assert forall|i: int| 0 <= i < first_unknown(columns, names) implies has_column(
            columns,
            #[trigger] names[i],
        ) by {
            if i < front.len() {
                assert(front[i] == names[i]);
            }
        }
        if first_unknown(columns, names) == names.len() {
            let found = selected(columns, names)->Ok_0;
            assert forall|i: int| 0 <= i < names.len() implies (#[trigger] found[i])
                == columns[first_index(columns, names[i])] by {
                if i < front.len() {
                    assert(front[i] == names[i]);
                    assert(found[i] == selected(columns, front)->Ok_0[i]);
                }
            }
        } else if first_unknown(columns, names) < front.len() {
            assert(front[first_unknown(columns, names)] == names[first_unknown(columns, names)]);
        }
    }
}

/// A selection that names a column which the table does not have is refused
/// with the first such name as the column that does not exist. It yields no
/// rows, and the registry is not touched.
pub proof fn unknown_column_is_refused(
    registry: Registry,
    name: Seq<char>,
    fields: Seq<Seq<char>>,
    at: int,
)
    requires
        registry.contains_key(name),
        0 <= at < fields.len(),
        !has_column(registry[name].columns, fields[at]),
    ensures
        ({
            let first = first_unknown(registry[name].columns, fields);
            &&& 0 <= first <= at
            &&& !has_column(registry[name].columns, fields[first])
            &&& selection(registry, name, fields) == Err::<Selection, Refusal>(
                Refusal::ColumnDoesNotExist(fields[first]),
            )
        }),
{
    lemma_first_unknown(registry[name].columns, fields);
}

/// No two of `columns` have the same name.
pub open spec fn distinct_names(columns: Seq<ColumnView>) -> bool {
    forall|i: int, j: int|
        0 <= i < j < columns.len() ==> (#[trigger] columns[i]).name != (#[trigger] columns[j]).name
}

/// With as many values as columns, each fitting its column, and no two
/// columns of one name: `row_of` maps the name of each column to the value at
/// its position.
pub proof fn lemma_row_of_complete(columns: Seq<ColumnView>, values: Seq<ValueView>, count: int)
    requires
        0 <= count <= columns.len(),
        count <= values.len(),
        distinct_names(columns),
        forall|i: int| 0 <= i < count ==> fits(columns[i].type_info, #[trigger] values[i]),
    ensures
        row_of(columns, values, count) is Ok,
        forall|i: int|
            0 <= i < count ==> {
                &&& row_of(columns, values, count)->Ok_0.contains_key((#[trigger] columns[i]).name)
                &&& row_of(columns, values, count)->Ok_0[columns[i].name] == values[i]
            },
    decreases count,
{
    if count > 0 {
        lemma_row_of_complete(columns, values, count - 1);
        assert(fits(columns[count - 1].type_info, values[count - 1]));
    }
}

/// Round trip. Let a table have no two columns of one name, and let an
/// insertion give it as many values as it has columns, each fitting its
/// column. Then the insertion succeeds and adds one row, under the id that is
/// the number of rows before. A selection of any of the table's columns shows
/// the columns in the order in which they were asked for, and the new row, the
/// last one, holds under each of them the value that was inserted at the
/// position of that column.
pub proof fn insert_then_select_round_trip(
    table: TableView,
    values: Seq<ValueView>,
    fields: Seq<Seq<char>>,
)
    requires
        distinct_names(table.columns),
        values.len() == table.columns.len(),
        forall|i: int|
            0 <= i < values.len() ==> fits(table.columns[i].type_info, #[trigger] values[i]),
        forall|j: int| 0 <= j < fields.len() ==> has_column(table.columns, #[trigger] fields[j]),
    ensures
        table.inserted(values).1 is Ok,
        selected(table.columns, fields) is Ok,
        ({
            let after = table.inserted(values).0;
            let columns = selected(table.columns, fields)->Ok_0;
            let rows = after.selection(columns, 0);
            &&& after.columns == table.columns
            &&& columns.len() == fields.len()
            &&& rows.len() == table.rows.len() + 1
            &&& rows.last().id == table.rows.len()
            &&& rows.last().columns == columns
            &&& forall|j: int|
                0 <= j < fields.len() ==> {
                    &&& (#[trigger] columns[j]).name == fields[j]
                    &&& rows.last().data.contains_key(fields[j])
                    &&& rows.last().data[fields[j]] == values[first_index(
                        table.columns,
                        fields[j],
                    )]
                }
        }),
{
    let count = paired(table.columns, values);
    lemma_row_of_complete(table.columns, values, count);
    lemma_first_unknown(table.columns, fields);
    let columns = selected(table.columns, fields)->Ok_0;
    let after = table.inserted(values).0;
    let rows = after.selection(columns, 0);
    let row = row_of(table.columns, values, count)->Ok_0;
    assert forall|j: int| 0 <= j < fields.len() implies {
        &&& (#[trigger] columns[j]).name == fields[j]
        &&& rows.last().data.contains_key(fields[j])
        &&& rows.last().data[fields[j]] == values[first_index(table.columns, fields[j])]
    } by {
        let at = first_index(table.columns, fields[j]);
        lemma_first_index(table.columns, fields[j]);
        assert(has_column(table.columns, fields[j]));
        assert(row.contains_key(table.columns[at].name));
        assert(has_column(columns, fields[j])) by {
            lemma_has_column(columns, j);
        }
    }
}

/// A column at some position makes its name one of the names of the columns.
pub proof fn lemma_has_column(columns: Seq<ColumnView>, at: int)
    requires
        0 <= at < columns.len(),
    ensures
        has_column(columns, columns[at].name),
    decreases columns.len(),
{
    if columns[0].name != columns[at].name {
        lemma_has_column(columns.drop_first(), at - 1);
    }
}

/// An insertion keeps the schema: if every row of the table holds each of its
/// values under the name of a column that takes it, the same is true after
/// the insertion, whether it succeeds or is refused.
pub proof fn insert_keeps_schema(table: TableView, values: Seq<ValueView>)
    requires
        table.keeps_schema(),
    ensures
        table.inserted(values).0.keeps_schema(),
{
    let after = table.inserted(values).0;
    let count = paired(table.columns, values);
    if row_of(table.columns, values, count) is Ok {
        lemma_row_of_fits(table.columns, values, count);
        assert forall|id: int| 0 <= id < after.rows.len() implies row_fits(
            after.columns,
            #[trigger] after.rows[id],
        ) by {
            if id < table.rows.len() {
                assert(after.rows[id] == table.rows[id]);
            }
        }
    }
}

/// In a table that keeps its schema, the names under which a row holds
/// values are names of columns of the table.
pub proof fn stored_names_are_columns(table: TableView, id: int, name: Seq<char>)
    requires
        table.keeps_schema(),
        0 <= id < table.rows.len(),
        table.rows[id].contains_key(name),
    ensures
        has_column(table.columns, name),
{
    assert(row_fits(table.columns, table.rows[id]));
    assert(fits_some(table.columns, name, table.rows[id][name]));
    let at = choose|at: int|
        0 <= at < table.columns.len() && (#[trigger] table.columns[at]).name == name && fits(
            table.columns[at].type_info,
            table.rows[id][name],
        );
    lemma_has_column(table.columns, at);
}

/// Whether every table of the registry keeps its schema.
pub open spec fn all_keep_schema(registry: Registry) -> bool {
    forall|name: Seq<char>| #[trigger]
        registry.contains_key(name) ==> registry[name].keeps_schema()
}

/// No statement breaks a schema: in a registry whose tables all keep their
/// schema, they still do after a creation and after an insertion, whatever
/// these answer.
pub proof fn statements_keep_schemas(
    registry: Registry,
    name: Seq<char>,
    columns: Seq<ColumnView>,
    values: Seq<ValueView>,
)
    requires
        all_keep_schema(registry),
    ensures
        all_keep_schema(created(registry, name, columns).0),
        all_keep_schema(inserted(registry, name, values).0),
{
    if registry.contains_key(name) {
        insert_keeps_schema(registry[name], values);
    }
}

/// The table after each of `batch` has been inserted in turn, refused
/// insertions changing nothing.
pub open spec fn after_inserts(table: TableView, batch: Seq<Seq<ValueView>>) -> TableView
    decreases batch.len(),
{
    if batch.len() == 0 {
        table
    } else {
        after_inserts(table, batch.drop_last()).inserted(batch.last()).0
    }
}

/// Whether each insertion of `batch`, made in turn, succeeds.
pub open spec fn all_succeed(table: TableView, batch: Seq<Seq<ValueView>>) -> bool
    decreases batch.len(),
{
    batch.len() > 0 ==> {
        &&& all_succeed(table, batch.drop_last())
        &&& after_inserts(table, batch.drop_last()).inserted(batch.last()).1 is Ok
    }
}

/// An insertion never changes a row that is there, nor its id, nor the
/// columns: a successful one adds one row behind the others, a refused one
/// nothing.
pub proof fn insert_keeps_rows(table: TableView, values: Seq<ValueView>)
    ensures
        table.inserted(values).0.columns == table.columns,
        table.inserted(values).0.rows.take(table.rows.len() as int) == table.rows,
        table.inserted(values).0.rows.len() == table.rows.len() + (if table.inserted(
            values,
        ).1 is Ok {
            1int
        } else {
            0int
        }),
{
    let after = table.inserted(values).0;
    assert(after.rows.take(table.rows.len() as int) =~= table.rows);
}

/// Row ids count up from 0. After any number of successful insertions into a
/// table without rows, a selection shows as many rows as there were
/// insertions, and the row at each position has that position as its id: the
/// ids are 0, 1, 2 and so on, none is left out and none is used twice.
pub proof fn row_ids_count_up(
    table: TableView,
    batch: Seq<Seq<ValueView>>,
    columns: Seq<ColumnView>,
)
    requires
        table.rows.len() == 0,
        all_succeed(table, batch),
    ensures
        after_inserts(table, batch).selection(columns, 0).len() == batch.len(),
        forall|i: int|
            0 <= i < batch.len() ==> (#[trigger] after_inserts(table, batch).selection(
                columns,
                0,
            )[i]).id == i,
    decreases batch.len(),
{
    lemma_after_inserts_len(table, batch);
}

/// Successful insertions add one row each.
pub proof fn lemma_after_inserts_len(table: TableView, batch: Seq<Seq<ValueView>>)
    requires
        all_succeed(table, batch),
    ensures
        after_inserts(table, batch).rows.len() == table.rows.len() + batch.len(),
    decreases batch.len(),
{
    if batch.len() > 0 {
        lemma_after_inserts_len(table, batch.drop_last());
    }
}

} // verus!
