//! A table: its schema, and its rows under their ids.

use crate::execution::error::QueryExecutionError;
use crate::execution::error::reply;
use crate::execution::error::Refusal;
use crate::execution::row::share;
use crate::execution::row::Row;
use crate::execution::row::RowView;
use crate::parser::commands::create::Column;
use crate::parser::commands::create::ColumnView;
use crate::parser::commands::create::SqlTypeInfo;
use crate::parser::value::Value;
use crate::parser::value::ValueView;
use std::collections::BTreeMap;
use std::rc::Rc;
use vstd::prelude::*;
use vstd::std_specs::iter::IteratorSpec;

verus! {

broadcast use vstd::laws_cmp::group_laws_cmp;

/// The mapping that a list of entries stands for: each name is mapped to the
/// value of the last entry under that name.
pub open spec fn mapping<V>(entries: Seq<(Seq<char>, V)>) -> Map<Seq<char>, V>
    decreases entries.len(),
{
    if entries.len() == 0 {
        Map::empty()
    } else {
        mapping(entries.drop_last()).insert(entries.last().0, entries.last().1)
    }
}

/// One physical row: a mapping from column names to values.
#[derive(Debug)]
pub struct StoredRow {
    data: Vec<(String, Value)>,
}

impl View for StoredRow {
    type V = Map<Seq<char>, ValueView>;

    closed spec fn view(&self) -> Map<Seq<char>, ValueView> {
        mapping(self.data.deep_view())
    }
}

impl Default for StoredRow {
    fn default() -> (row: StoredRow)
        ensures
            row@ == Map::<Seq<char>, ValueView>::empty(),
    {
        StoredRow::new()
    }
}

impl StoredRow {
    /// A row without values.
    pub fn new() -> (row: StoredRow)
        ensures
            row@ == Map::<Seq<char>, ValueView>::empty(),
    {
        let row = StoredRow { data: Vec::new() };
        assert(row.data.deep_view() =~= Seq::empty());
        row
    }

    /// Maps `name` to `value`, in place of any value it was mapped to.
    pub fn insert(&mut self, name: String, value: Value)
        ensures
            final(self)@ == old(self)@.insert(name@, value@),
    {
        let ghost before = self.data.deep_view();
        self.data.push((name, value));
        assert(self.data.deep_view().drop_last() =~= before);
    }

    /// The value that `name` is mapped to, if any.
    pub fn get(&self, name: &String) -> (value: Option<&Value>)
        ensures
            match value {
                Some(value) => self@.contains_key(name@) && self@[name@] == value@,
                None => !self@.contains_key(name@),
            },
    {
        let ghost entries = self.data.deep_view();
        let mut i = self.data.len();
        assert(entries.take(i as int) =~= entries);
        while i > 0
            invariant
                0 <= i <= self.data.len(),
                entries == self.data.deep_view(),
                mapping(entries).contains_key(name@) == mapping(
                    entries.take(i as int),
                ).contains_key(name@),
                mapping(entries).contains_key(name@) ==> mapping(entries)[name@] == mapping(
                    entries.take(i as int),
                )[name@],
            decreases i,
        {
            assert(entries.take(i as int).drop_last() =~= entries.take(i - 1));
            assert(entries.take(i as int).last() == self.data[i - 1].deep_view());
            i -= 1;
            if self.data[i].0 == *name {
                return Some(&self.data[i].1);
            }
        }
        None
    }
}

/// The columns of a table or of a selection, in order.
#[derive(Debug)]
pub struct ColumnInfo {
    columns: Vec<Column>,
}

impl View for ColumnInfo {
    type V = Seq<ColumnView>;

    closed spec fn view(&self) -> Seq<ColumnView> {
        self.columns.deep_view()
    }
}

/// The position of the first of `columns` that is named `name`, or the
/// number of columns if none is.
pub open spec fn first_index(columns: Seq<ColumnView>, name: Seq<char>) -> int
    decreases columns.len(),
{
    if columns.len() == 0 {
        0
    } else if columns[0].name == name {
        0
    } else {
        1 + first_index(columns.drop_first(), name)
    }
}

/// Whether one of `columns` is named `name`.
pub open spec fn has_column(columns: Seq<ColumnView>, name: Seq<char>) -> bool {
    first_index(columns, name) < columns.len()
}

/// `first_index` finds a column of the name, and the first one, if and only
/// if there is any.
pub proof fn lemma_first_index(columns: Seq<ColumnView>, name: Seq<char>)
    ensures
        0 <= first_index(columns, name) <= columns.len(),
        has_column(columns, name) ==> columns[first_index(columns, name)].name == name,
        forall|i: int| 0 <= i < first_index(columns, name) ==> (#[trigger] columns[i]).name != name,
    decreases columns.len(),
{
    if columns.len() > 0 && columns[0].name != name {
        let rest = columns.drop_first();
        lemma_first_index(rest, name);
        assert forall|i: int| 0 <= i < first_index(columns, name) implies (
        #[trigger] columns[i]).name != name by {
            if i > 0 {
                assert(rest[i - 1].name != name);
            }
        }
    }
}

impl ColumnInfo {
    /// The columns `columns`, in their order.
    pub fn new(columns: Vec<Column>) -> (info: ColumnInfo)
        ensures
            info@ == columns.deep_view(),
    {
        ColumnInfo { columns }
    }

    /// The number of columns.
    pub fn len(&self) -> (len: usize)
        ensures
            len == self@.len(),
    {
        self.columns.len()
    }

    /// The columns, from the first to the last.
    pub fn iter(&self) -> (iter: std::slice::Iter<'_, Column>)
        ensures
            IteratorSpec::remaining(&iter).len() == self@.len(),
            forall|i: int|
                0 <= i < self@.len() ==> (#[trigger] IteratorSpec::remaining(&iter)[i])@
                    == self@[i],
            IteratorSpec::decrease(&iter) is Some,
            IteratorSpec::initial_value_relation(&iter, &iter),
    {
        self.columns.iter()
    }

    /// The column at position `index`.
    pub fn column(&self, index: usize) -> (column: &Column)
        requires
            index < self@.len(),
        ensures
            column@ == self@[index as int],
    {
        &self.columns[index]
    }

    /// The first column named `column_name`; without one, the name comes back
    /// as the column that does not exist.
    pub fn find_column(&self, column_name: &String) -> (found: Result<
        &Column,
        QueryExecutionError,
    >)
        ensures
            match found {
                Ok(column) => has_column(self@, column_name@) && column@ == self@[first_index(
                    self@,
                    column_name@,
                )],
                Err(e) => !has_column(self@, column_name@) && e@ == Refusal::ColumnDoesNotExist(
                    column_name@,
                ),
            },
    {
        let mut i: usize = 0;
        assert(self@.skip(0) =~= self@);
        while i < self.columns.len()
            invariant
                0 <= i <= self.columns.len(),
                first_index(self@, column_name@) == i + first_index(
                    self@.skip(i as int),
                    column_name@,
                ),
            decreases self.columns.len() - i,
        {
            assert(self@.skip(i as int).drop_first() =~= self@.skip(i + 1));
            assert(self@.skip(i as int)[0] == self.columns[i as int]@);
            if self.columns[i].name == *column_name {
                return Ok(&self.columns[i]);
            }
            i += 1;
        }
        Err(QueryExecutionError::ColumnDoesNotExist(column_name.clone()))
    }
}

impl Default for ColumnInfo {
    fn default() -> (info: ColumnInfo)
        ensures
            info@ == Seq::<ColumnView>::empty(),
    {
        let info = ColumnInfo { columns: Vec::new() };
        assert(info@ =~= Seq::empty());
        info
    }
}

impl Clone for ColumnInfo {
    fn clone(&self) -> (copy: ColumnInfo)
        ensures
            copy@ == self@,
    {
        let mut columns: Vec<Column> = Vec::new();
        let mut i: usize = 0;
        while i < self.columns.len()
            invariant
                0 <= i <= self.columns.len(),
                columns.deep_view() == self@.take(i as int),
            decreases self.columns.len() - i,
        {
            let ghost before = columns.deep_view();
            columns.push(self.columns[i].clone());
            assert(columns.deep_view() =~= before.push(self.columns[i as int]@));
            assert(self@.take(i + 1) =~= self@.take(i as int).push(self@[i as int]));
            i += 1;
        }
        assert(self@.take(i as int) =~= self@);
        ColumnInfo { columns }
    }
}

/// Whether a column of type `type_info` takes `value`: a string column takes
/// strings, an integer column takes numbers.
pub open spec fn fits(type_info: SqlTypeInfo, value: ValueView) -> bool {
    match (type_info, value) {
        (SqlTypeInfo::String, ValueView::String(_)) => true,
        (SqlTypeInfo::Int, ValueView::Number(_)) => true,
        _ => false,
    }
}

/// The row that the first `count` of `values` make when each is paired with
/// the column at its position; or, where one of them does not fit its column,
/// the mismatch of the first that does not.
pub open spec fn row_of(columns: Seq<ColumnView>, values: Seq<ValueView>, count: int) -> Result<
    Map<Seq<char>, ValueView>,
    Refusal,
>
    decreases count,
{
    if count <= 0 {
        Ok(Map::empty())
    } else {
        match row_of(columns, values, count - 1) {
            Ok(row) => if fits(columns[count - 1].type_info, values[count - 1]) {
                Ok(row.insert(columns[count - 1].name, values[count - 1]))
            } else {
                Err(Refusal::InsertTypeMismatch(columns[count - 1].type_info, values[count - 1]))
            },
            Err(e) => Err(e),
        }
    }
}

/// A mismatch among the first `count` values is the outcome for any greater
/// count too.
pub proof fn lemma_row_of_refused(
    columns: Seq<ColumnView>,
    values: Seq<ValueView>,
    count: int,
    more: int,
)
    requires
        count <= more,
        row_of(columns, values, count) is Err,
    ensures
        row_of(columns, values, more) == row_of(columns, values, count),
    decreases more - count,
{
    if count < more {
        lemma_row_of_refused(columns, values, count, more - 1);
    }
}

/// Whether one of `columns` is named `name` and takes `value`.
pub open spec fn fits_some(columns: Seq<ColumnView>, name: Seq<char>, value: ValueView) -> bool {
    exists|i: int|
        0 <= i < columns.len() && (#[trigger] columns[i]).name == name && fits(
            columns[i].type_info,
            value,
        )
}

/// Whether `row` keeps to the schema `columns`: each of its values stands
/// under the name of a column that takes it.
pub open spec fn row_fits(columns: Seq<ColumnView>, row: Map<Seq<char>, ValueView>) -> bool {
    forall|name: Seq<char>| #[trigger] row.contains_key(name) ==> fits_some(columns, name, row[name])
}

/// A row that `row_of` makes keeps to the schema.
pub proof fn lemma_row_of_fits(columns: Seq<ColumnView>, values: Seq<ValueView>, count: int)
    requires
        count <= columns.len(),
        row_of(columns, values, count) is Ok,
    ensures
        row_fits(columns, row_of(columns, values, count)->Ok_0),
    decreases count,
{
    if count > 0 {
        lemma_row_of_fits(columns, values, count - 1);
        let before = row_of(columns, values, count - 1)->Ok_0;
        let row = row_of(columns, values, count)->Ok_0;
        assert forall|name: Seq<char>| #[trigger] row.contains_key(name) implies fits_some(
            columns,
            name,
            row[name],
        ) by {
            if name == columns[count - 1].name {
                assert(columns[count - 1].name == name && fits(
                    columns[count - 1].type_info,
                    row[name],
                ));
            } else {
                assert(before.contains_key(name));
            }
        }
    }
}

/// The number of values that have a column to go to: values beyond the last
/// column are left out, and so are columns beyond the last value.
pub open spec fn paired(columns: Seq<ColumnView>, values: Seq<ValueView>) -> int {
    if columns.len() <= values.len() {
        columns.len() as int
    } else {
        values.len() as int
    }
}

/// The columns named by `names`, in the order of the names; or the first of
/// the names that names no column, as the column that does not exist.
pub open spec fn selected(columns: Seq<ColumnView>, names: Seq<Seq<char>>) -> Result<
    Seq<ColumnView>,
    Refusal,
>
    decreases names.len(),
{
    if names.len() == 0 {
        Ok(Seq::empty())
    } else {
        match selected(columns, names.drop_last()) {
            Ok(found) => if has_column(columns, names.last()) {
                Ok(found.push(columns[first_index(columns, names.last())]))
            } else {
                Err(Refusal::ColumnDoesNotExist(names.last()))
            },
            Err(e) => Err(e),
        }
    }
}

/// A name without a column among the first `count` names is the outcome for
/// any greater count too.
pub proof fn lemma_selected_refused(
    columns: Seq<ColumnView>,
    names: Seq<Seq<char>>,
    count: int,
    more: int,
)
    requires
        0 <= count <= more <= names.len(),
        selected(columns, names.take(count)) is Err,
    ensures
        selected(columns, names.take(more)) == selected(columns, names.take(count)),
    decreases more - count,
{
    if count < more {
        lemma_selected_refused(columns, names, count, more - 1);
        assert(names.take(more).drop_last() =~= names.take(more - 1));
    }
}

/// The names of `columns`.
pub open spec fn column_names(columns: Seq<ColumnView>) -> Set<Seq<char>> {
    Set::new(|name: Seq<char>| has_column(columns, name))
}

/// The row `id` as a selection of `columns` shows it: of the values of
/// `stored`, those under the name of one of the columns.
pub open spec fn project(
    columns: Seq<ColumnView>,
    id: nat,
    stored: Map<Seq<char>, ValueView>,
) -> RowView {
    RowView { id, columns, data: stored.restrict(column_names(columns)) }
}

/// The mathematical value of a [`Table`]: its schema, and its rows in the
/// order of their ids. The id of a row is its position.
pub ghost struct TableView {
    pub columns: Seq<ColumnView>,
    pub rows: Seq<Map<Seq<char>, ValueView>>,
}

impl TableView {
    /// Whether every row keeps to the schema of the table: each value stands
    /// under the name of a column of the table that takes it.
    pub open spec fn keeps_schema(self) -> bool {
        forall|id: int| 0 <= id < self.rows.len() ==> row_fits(self.columns, #[trigger] self.rows[id])
    }

    /// The table after an insertion of `values`, and what the insertion
    /// answers: where all paired values fit, one more row; else the table as
    /// it is and the mismatch.
    pub open spec fn inserted(self, values: Seq<ValueView>) -> (TableView, Result<(), Refusal>) {
        match row_of(self.columns, values, paired(self.columns, values)) {
            Ok(row) => (TableView { rows: self.rows.push(row), ..self }, Ok(())),
            Err(e) => (self, Err(e)),
        }
    }

    /// The rows from the id `from` on as a selection of `columns` shows them,
    /// by ascending id.
    pub open spec fn selection(self, columns: Seq<ColumnView>, from: int) -> Seq<RowView> {
        Seq::new(
            if 0 <= from <= self.rows.len() {
                (self.rows.len() - from) as nat
            } else {
                0
            },
            |i: int| project(columns, (from + i) as nat, self.rows[from + i]),
        )
    }
}

/// A table: a schema, and the rows inserted so far under the ids 0, 1, 2 and
/// so on.
#[derive(Debug)]
pub struct Table {
    /// Row id to row.
    rows: BTreeMap<usize, StoredRow>,
    /// The columns of the table.
    columns: ColumnInfo,
}

impl View for Table {
    type V = TableView;

    closed spec fn view(&self) -> TableView {
        TableView {
            columns: self.columns@,
            rows: Seq::new(self.rows@.len(), |id: int| self.rows@[id as usize]@),
        }
    }
}

impl DeepView for Table {
    type V = TableView;

    open spec fn deep_view(&self) -> TableView {
        self@
    }
}

impl Default for Table {
    fn default() -> (table: Table)
        ensures
            table@ == (TableView { columns: Seq::empty(), rows: Seq::empty() }),
    {
        let table = Table::new(Vec::new());
        assert(table@.columns =~= Seq::empty());
        table
    }
}

impl Table {
    /// The ids in use are those below the number of rows, and every row keeps
    /// to the schema.
    #[verifier::type_invariant]
    spec fn well_formed(&self) -> bool {
        &&& forall|id: usize| self.rows@.contains_key(id) <==> id < self.rows@.len()
        &&& forall|id: usize|
            self.rows@.contains_key(id) ==> row_fits(self.columns@, (#[trigger] self.rows@[id])@)
    }

    /// A table whose rows are as the type demands keeps to its schema.
    proof fn lemma_keeps_schema(self)
        requires
            self.well_formed(),
        ensures
            self@.keeps_schema(),
    {
        assert forall|id: int| 0 <= id < self@.rows.len() implies row_fits(
            self@.columns,
            #[trigger] self@.rows[id],
        ) by {
            assert(self.rows.len() == self.rows@.len());
            let key = id as usize;
            assert(self.rows@.contains_key(key));
        }
    }

    /// An empty table with the columns `columns`.
    pub fn new(columns: Vec<Column>) -> (table: Table)
        ensures
            table@ == (TableView { columns: columns.deep_view(), rows: Seq::empty() }),
            table@.keeps_schema(),
    {
        let table = Table { rows: BTreeMap::new(), columns: ColumnInfo::new(columns) };
        assert(table@.rows =~= Seq::empty());
        table
    }

    /// The columns of the table.
    pub fn columns(&self) -> (columns: &ColumnInfo)
        ensures
            columns@ == self@.columns,
    {
        &self.columns
    }

    /// The number of rows.
    pub fn len(&self) -> (len: usize)
        ensures
            len == self@.rows.len(),
    {
        self.rows.len()
    }

    /// Inserts `values` as a new row. The values are taken to be in the order
    /// of the columns. The new row gets the next id; where a value does not
    /// fit its column, nothing is inserted.
    pub fn insert(&mut self, values: Vec<Value>) -> (result: Result<(), QueryExecutionError>)
        ensures
            (final(self)@, reply(result)) == old(self)@.inserted(values.deep_view()),
            final(self)@.keeps_schema(),
    {
        proof {
            use_type_invariant(&*self);
            self.lemma_keeps_schema();
        }
        let id = self.rows.len();
        let count = self.columns.len();
        let ghost columns = self.columns@;
        let ghost given = values.deep_view();
        let ghost all = values@;
        let mut row = StoredRow::new();
        let mut i: usize = 0;
        assert(all.len() <= usize::MAX) by {
            assert(values.len() <= usize::MAX);
        }
        for value in it: values.into_iter()
            invariant
                it.seq() == all,
                all.len() <= usize::MAX,
                given == values.deep_view(),
                given.len() == all.len(),
                forall|k: int| 0 <= k < all.len() ==> given[k] == (#[trigger] all[k])@,
                i == it.index(),
                columns == self.columns@,
                count == columns.len(),
                *self == *old(self),
                old(self)@.keeps_schema(),
                row_of(columns, given, if i <= count { i as int } else { count as int }) == Ok::<
                    Map<Seq<char>, ValueView>,
                    Refusal,
                >(row@),
        {
            if i < count {
                let column = self.columns.column(i);
                let fitting = match (column.type_info, &value) {
                    (SqlTypeInfo::String, Value::String(_)) => true,
                    (SqlTypeInfo::Int, Value::Number(_)) => true,
                    _ => false,
                };
                assert(given[i as int] == value@);
                assert(fitting == fits(columns[i as int].type_info, given[i as int]));
                if !fitting {
                    proof {
                        assert(row_of(columns, given, i + 1) is Err);
                        lemma_row_of_refused(columns, given, i + 1, paired(columns, given));
                    }
                    return Err(QueryExecutionError::InsertTypeMismatch(column.type_info, value));
                }
                row.insert(column.name.clone(), value);
            }
            i += 1;
        }
        let ghost before = self.rows@;
        proof {
            lemma_row_of_fits(columns, given, paired(columns, given));
        }
        // The rows are taken out for the insertion and put back after it, so
        // that the table is whole whenever it is looked at.
        let mut rows: BTreeMap<usize, StoredRow> = BTreeMap::new();
        std::mem::swap(&mut self.rows, &mut rows);
        rows.insert(id, row);
        proof {
            assert(rows@.dom() =~= before.dom().insert(id));
        }
        std::mem::swap(&mut self.rows, &mut rows);
        proof {
            assert(self@.rows =~= old(self)@.rows.push(row@));
        }
        Ok(())
    }

    /// The rows of the table as a selection of the columns named by
    /// `columns` shows them, in the order of the names.
    pub fn select(&self, columns: Vec<String>) -> (result: Result<
        TableIter<'_>,
        QueryExecutionError,
    >)
        ensures
            match result {
                Ok(rows) => {
                    &&& selected(self@.columns, columns.deep_view()) == Ok::<
                        Seq<ColumnView>,
                        Refusal,
                    >(rows@.columns)
                    &&& rows@.remaining == self@.selection(rows@.columns, 0)
                },
                Err(e) => selected(self@.columns, columns.deep_view()) == Err::<
                    Seq<ColumnView>,
                    Refusal,
                >(e@),
            },
            self@.keeps_schema(),
    {
        proof {
            use_type_invariant(self);
            self.lemma_keeps_schema();
        }
        let ghost names = columns.deep_view();
        let mut selected_columns: Vec<Column> = Vec::new();
        let mut i: usize = 0;
        assert(names.take(0) =~= Seq::empty());
        assert(selected_columns.deep_view() =~= Seq::empty());
        while i < columns.len()
            invariant
                0 <= i <= columns.len(),
                names == columns.deep_view(),
                self@.keeps_schema(),
                selected(self@.columns, names.take(i as int)) == Ok::<Seq<ColumnView>, Refusal>(
                    selected_columns.deep_view(),
                ),
            decreases columns.len() - i,
        {
            proof {
                assert(names.take(i + 1).drop_last() =~= names.take(i as int));
                assert(names.take(i + 1).last() == columns[i as int]@);
            }
            match self.columns.find_column(&columns[i]) {
                Ok(column) => {
                    let ghost before = selected_columns.deep_view();
                    selected_columns.push(column.clone());
                    assert(selected_columns.deep_view() =~= before.push(column@));
                },
                Err(e) => {
                    proof {
                        lemma_selected_refused(
                            self@.columns,
                            names,
                            i + 1,
                            names.len() as int,
                        );
                        assert(names.take(names.len() as int) =~= names);
                    }
                    return Err(e);
                },
            }
            i += 1;
        }
        assert(names.take(i as int) =~= names);
        Ok(TableIter::new(self, Rc::new(ColumnInfo::new(selected_columns))))
    }

    /// The rows of the table with all its columns.
    pub fn iter(&self) -> (rows: TableIter<'_>)
        ensures
            rows@.columns == self@.columns,
            rows@.remaining == self@.selection(self@.columns, 0),
            self@.keeps_schema(),
    {
        proof {
            use_type_invariant(self);
            self.lemma_keeps_schema();
        }
        TableIter::new(self, Rc::new(self.columns.clone()))
    }
}

/// The rows of a table that a query has yet to yield, by ascending id.
#[derive(Debug)]
pub struct TableIter<'a> {
    /// The table read.
    table: &'a Table,
    /// The id of the next row.
    next_id: usize,
    /// The columns selected.
    columns: Rc<ColumnInfo>,
}

/// The mathematical value of a [`TableIter`].
pub ghost struct Selection {
    /// The columns selected.
    pub columns: Seq<ColumnView>,
    /// The rows yet to come.
    pub remaining: Seq<RowView>,
}

impl<'a> View for TableIter<'a> {
    type V = Selection;

    closed spec fn view(&self) -> Selection {
        Selection {
            columns: self.columns@,
            remaining: self.table@.selection(self.columns@, self.next_id as int),
        }
    }
}

impl<'a> TableIter<'a> {
    /// All rows of `table`, as a selection of `columns` shows them.
    pub fn new(table: &'a Table, columns: Rc<ColumnInfo>) -> (rows: Self)
        ensures
            rows@ == (Selection {
                columns: columns@,
                remaining: table@.selection(columns@, 0),
            }),
    {
        Self { table, next_id: 0, columns }
    }

    /// The columns selected.
    pub fn columns(&self) -> (columns: &ColumnInfo)
        ensures
            columns@ == self@.columns,
    {
        &*self.columns
    }

    /// The next row, if there is one left.
    pub fn next(&mut self) -> (row: Option<Row<'a>>)
        ensures
            final(self)@.columns == old(self)@.columns,
            match row {
                Some(row) => {
                    &&& old(self)@.remaining.len() > 0
                    &&& row@ == old(self)@.remaining[0]
                    &&& final(self)@.remaining == old(self)@.remaining.drop_first()
                },
                None => {
                    &&& old(self)@.remaining.len() == 0
                    &&& final(self)@.remaining == old(self)@.remaining
                },
            },
    {
        let table: &'a Table = self.table;
        proof {
            use_type_invariant(table);
        }
        let id = self.next_id;
        match table.rows.get(&id) {
            None => None,
            Some(stored) => {
                let ghost names = column_names(self.columns@);
                let ghost entries = stored.data.deep_view();
                let mut data: Vec<(&'a String, &'a Value)> = Vec::new();
                let mut i: usize = 0;
                assert(entries.take(0) =~= Seq::empty());
                assert(data.deep_view() =~= Seq::empty());
                assert(mapping(entries.take(0)).restrict(names) =~= Map::empty());
                while i < stored.data.len()
                    invariant
                        0 <= i <= stored.data.len(),
                        entries == stored.data.deep_view(),
                        names == column_names(self.columns@),
                        mapping(data.deep_view()) == mapping(entries.take(i as int)).restrict(
                            names,
                        ),
                    decreases stored.data.len() - i,
                {
                    let entry = &stored.data[i];
                    let ghost before = data.deep_view();
                    proof {
                        assert(entries.take(i + 1).drop_last() =~= entries.take(i as int));
                        assert(entries.take(i + 1).last() == entry.deep_view());
                    }
                    match self.columns.find_column(&entry.0) {
                        Ok(_) => {
                            data.push((&entry.0, &entry.1));
                            proof {
                                assert(data.deep_view().drop_last() =~= before);
                                assert(mapping(data.deep_view()) =~= mapping(
                                    entries.take(i + 1),
                                ).restrict(names));
                            }
                        },
                        Err(_) => {
                            assert(mapping(data.deep_view()) =~= mapping(
                                entries.take(i + 1),
                            ).restrict(names));
                        },
                    }
                    i += 1;
                }
                proof {
                    assert(entries.take(i as int) =~= entries);
                    assert(old(self)@.remaining[0] == project(self.columns@, id as nat, stored@));
                }
                assert(id < table.rows@.len() <= usize::MAX) by {
                    assert(table.rows.len() == table.rows@.len());
                }
                self.next_id = id + 1;
                proof {
                    assert(self@.remaining =~= old(self)@.remaining.drop_first());
                }
                Some(Row::new(share(&self.columns), id, data))
            },
        }
    }
}

} // verus!
