//! Tables: named, typed columns of equal length.
//!
//! A `Table` is never changed once it is built; every transformation makes a new
//! one. Its model is `TableView`; every `Table` satisfies `TableView::wf`.

use vstd::prelude::*;
use crate::value::{DataType, Value, ValueView};

verus! {

/// The model of a column: its name, its type and its values from the first row
/// to the last.
pub struct ColumnView {
    pub name: Seq<char>,
    pub dtype: DataType,
    pub values: Seq<ValueView>,
}

impl ColumnView {
    /// Every value is null or of the column's type.
    pub open spec fn wf(self) -> bool {
        forall|i: int| 0 <= i < self.values.len() ==> (#[trigger] self.values[i]).fits(self.dtype)
    }
}

/// The model of a table.
pub struct TableView {
    pub columns: Seq<ColumnView>,
    pub height: nat,
}

impl TableView {
    /// The number of columns.
    pub open spec fn width(self) -> nat {
        self.columns.len()
    }

    /// All columns have `height` values of their type, and no two columns share a
    /// name.
    pub open spec fn wf(self) -> bool {
        &&& forall|c: int|
            0 <= c < self.columns.len() ==> (#[trigger] self.columns[c]).values.len()
                == self.height
        &&& forall|c: int| 0 <= c < self.columns.len() ==> (#[trigger] self.columns[c]).wf()
        &&& forall|i: int, j: int|
            0 <= i < j < self.columns.len() ==> (#[trigger] self.columns[i]).name
                != (#[trigger] self.columns[j]).name
    }

    /// The value in row `row` of column `col`.
    pub open spec fn cell(self, row: int, col: int) -> ValueView {
        self.columns[col].values[row]
    }

    /// The names of the columns, in order.
    pub open spec fn names(self) -> Seq<Seq<char>> {
        Seq::new(self.columns.len(), |c: int| self.columns[c].name)
    }

    /// The types of the columns, in order.
    pub open spec fn types(self) -> Seq<DataType> {
        Seq::new(self.columns.len(), |c: int| self.columns[c].dtype)
    }

    /// The values of row `row`, in column order.
    pub open spec fn row(self, row: int) -> Seq<ValueView> {
        Seq::new(self.columns.len(), |c: int| self.columns[c].values[row])
    }

    /// The index of the first column called `name`, if there is one.
    pub open spec fn position(self, name: Seq<char>) -> Option<int> {
        position_in(self.names(), name)
    }
}

/// The rows of a table, from the first to the last.
pub open spec fn rows_of(t: TableView) -> Seq<Seq<ValueView>> {
    Seq::new(t.height, |r: int| t.row(r))
}

/// The index of the first item of `names` equal to `name`, if there is one.
pub open spec fn position_in(names: Seq<Seq<char>>, name: Seq<char>) -> Option<int>
    decreases names.len(),
{
    if names.len() == 0 {
        None
    } else {
        match position_in(names.drop_last(), name) {
            Some(i) => Some(i),
            None => if names.last() == name {
                Some(names.len() - 1)
            } else {
                None
            },
        }
    }
}

/// `position_in` finds the least index that holds the name, and nothing when no
/// index holds it.
pub proof fn lemma_position_in(names: Seq<Seq<char>>, name: Seq<char>)
    ensures
        match position_in(names, name) {
            Some(i) => 0 <= i < names.len() && names[i] == name && forall|j: int|
                0 <= j < i ==> names[j] != name,
            None => forall|j: int| 0 <= j < names.len() ==> names[j] != name,
        },
    decreases names.len(),
{
    if names.len() > 0 {
        let front = names.drop_last();
        lemma_position_in(front, name);
        assert(forall|j: int| 0 <= j < front.len() ==> front[j] == names[j]);
    }
}

/// Why a column or a table could not be built.
#[derive(Clone, Copy, PartialEq, Eq, Debug, Structural)]
pub enum TableError {
    /// The value in row `row` is neither null nor of the column's type.
    WrongType { row: usize },
    /// Column `column` is not as long as the first column.
    UnequalLength { column: usize },
    /// Column `column` has the name of an earlier column.
    DuplicateName { column: usize },
}

/// One column of a table.
#[derive(Debug)]
pub struct Column {
    name: String,
    dtype: DataType,
    values: Vec<Value>,
}

impl View for Column {
    type V = ColumnView;

    closed spec fn view(&self) -> ColumnView {
        ColumnView {
            name: self.name@,
            dtype: self.dtype,
            values: Seq::new(self.values.len() as nat, |i: int| self.values[i]@),
        }
    }
}

impl Column {
    /// Every column is well formed.
    #[verifier::type_invariant]
    pub open spec fn valid(self) -> bool {
        self@.wf()
    }

    /// A column called `name`, of type `dtype`, holding `values`. It is refused
    /// when a value is neither null nor of type `dtype`; the error names the first
    /// such row.
    pub fn new(name: &str, dtype: DataType, values: Vec<Value>) -> (r: Result<Column, TableError>)
        ensures
            match r {
                Ok(c) => c@.wf() && c@.name == name@ && c@.dtype == dtype && c@.values
                    == values@.map_values(|v: Value| v@),
                Err(TableError::WrongType { row }) => row < values.len() && !values[row as int]@.fits(
                    dtype,
                ) && forall|i: int| 0 <= i < row ==> (#[trigger] values[i])@.fits(dtype),
                Err(_) => false,
            },
    {
        let mut i: usize = 0;
        while i < values.len()
            invariant
                i <= values.len(),
                forall|j: int| 0 <= j < i ==> (#[trigger] values[j])@.fits(dtype),
            decreases values.len() - i,
        {
            if !values[i].fits(dtype) {
                return Err(TableError::WrongType { row: i });
            }
            i += 1;
        }
        let c = Column { name: name.to_owned(), dtype, values };
        assert(c@.values =~= values@.map_values(|v: Value| v@));
        Ok(c)
    }

    /// A column of values that are known to be null or of type `dtype`.
    pub(crate) fn assemble(name: String, dtype: DataType, values: Vec<Value>) -> (c: Column)
        requires
            forall|i: int| 0 <= i < values.len() ==> (#[trigger] values[i])@.fits(dtype),
        ensures
            c@.name == name@,
            c@.dtype == dtype,
            c@.values == Seq::new(values.len() as nat, |i: int| values[i]@),
            c@.wf(),
    {
        Column { name, dtype, values }
    }

    /// The column's name.
    pub fn name(&self) -> (r: &str)
        ensures
            r@ == self@.name,
    {
        self.name.as_str()
    }

    /// The column's type.
    pub fn data_type(&self) -> (r: DataType)
        ensures
            r == self@.dtype,
    {
        self.dtype
    }

    /// The number of values.
    pub fn len(&self) -> (r: usize)
        ensures
            r == self@.values.len(),
    {
        self.values.len()
    }

    /// The value in row `row`.
    pub fn value(&self, row: usize) -> (r: &Value)
        requires
            row < self@.values.len(),
        ensures
            r@ == self@.values[row as int],
    {
        &self.values[row]
    }

    /// The value in row `row`, if the column has that many rows.
    pub fn get(&self, row: usize) -> (r: Option<&Value>)
        ensures
            match r {
                Some(v) => row < self@.values.len() && v@ == self@.values[row as int],
                None => row >= self@.values.len(),
            },
    {
        if row < self.values.len() {
            Some(&self.values[row])
        } else {
            None
        }
    }
}

impl Clone for Column {
    fn clone(&self) -> (r: Self)
        ensures
            r@ == self@,
    {
        proof {
            use_type_invariant(self);
        }
        let mut values: Vec<Value> = Vec::new();
        let mut i: usize = 0;
        while i < self.values.len()
            invariant
                i <= self.values.len(),
                values.len() == i,
                forall|j: int| 0 <= j < i ==> (#[trigger] values[j])@ == self.values[j]@,
            decreases self.values.len() - i,
        {
            values.push(self.values[i].clone());
            i += 1;
        }
        assert forall|j: int| 0 <= j < values.len() implies (#[trigger] values[j])@.fits(
            self.dtype,
        ) by {
            assert(self@.values[j] == self.values[j]@);
        }
        let r = Column { name: self.name.clone(), dtype: self.dtype, values };
        assert(r@.values =~= self@.values);
        r
    }
}

/// The models of a vector of columns.
pub open spec fn column_views(columns: Seq<Column>) -> Seq<ColumnView> {
    Seq::new(columns.len(), |c: int| columns[c]@)
}

/// An immutable table.
#[derive(Debug)]
pub struct Table {
    columns: Vec<Column>,
    height: usize,
}

impl View for Table {
    type V = TableView;

    closed spec fn view(&self) -> TableView {
        TableView { columns: column_views(self.columns@), height: self.height as nat }
    }
}

impl Table {
    /// Every table is well formed.
    #[verifier::type_invariant]
    pub open spec fn valid(self) -> bool {
        self@.wf()
    }

    /// The table without columns and without rows.
    pub fn empty() -> (t: Table)
        ensures
            t@.columns.len() == 0,
            t@.height == 0,
    {
        Table { columns: Vec::new(), height: 0 }
    }

    /// The table made of `columns`, as high as its first column. It is refused
    /// when a column is not as long as the first one, and otherwise when two
    /// columns share a name; the error names the first column at fault.
    pub fn new(columns: Vec<Column>) -> (r: Result<Table, TableError>)
        ensures
            match r {
                Ok(t) => {
                    &&& t@.wf()
                    &&& t@.columns == column_views(columns@)
                    &&& t@.height == (if columns.len() == 0 {
                        0
                    } else {
                        columns[0]@.values.len()
                    })
                },
                Err(TableError::UnequalLength { column }) => {
                    &&& 0 < column < columns.len()
                    &&& columns[column as int]@.values.len() != columns[0]@.values.len()
                    &&& forall|c: int|
                        0 <= c < column ==> (#[trigger] columns[c])@.values.len()
                            == columns[0]@.values.len()
                },
                Err(TableError::DuplicateName { column }) => {
                    &&& column < columns.len()
                    &&& forall|c: int|
                        0 <= c < columns.len() ==> (#[trigger] columns[c])@.values.len()
                            == columns[0]@.values.len()
                    &&& exists|i: int| 0 <= i < column && columns[i]@.name == columns[column as int]@.name
                    &&& forall|i: int, j: int|
                        0 <= i < j < column ==> (#[trigger] columns[i])@.name
                            != (#[trigger] columns[j])@.name
                },
                Err(TableError::WrongType { .. }) => false,
            },
    {
        let n = columns.len();
        let height: usize = if n == 0 {
            0
        } else {
            columns[0].len()
        };
        let mut c: usize = 0;
        while c < n
            invariant
                n == columns.len(),
                c <= n,
                n > 0 ==> height == columns[0]@.values.len(),
                forall|k: int| 0 <= k < c ==> (#[trigger] columns[k])@.values.len() == height,
                forall|k: int| 0 <= k < c ==> (#[trigger] columns[k])@.wf(),
            decreases n - c,
        {
            let column = &columns[c];
            proof {
                use_type_invariant(column);
            }
            if column.len() != height {
                return Err(TableError::UnequalLength { column: c });
            }
            c += 1;
        }
        assert(forall|k: int| 0 <= k < n ==> (#[trigger] columns[k])@.wf());
        let mut j: usize = 0;
        while j < n
            invariant
                n == columns.len(),
                j <= n,
                n > 0 ==> height == columns[0]@.values.len(),
                forall|k: int| 0 <= k < n ==> (#[trigger] columns[k])@.values.len() == height,
                forall|a: int, b: int|
                    0 <= a < b < j ==> (#[trigger] columns[a])@.name != (#[trigger] columns[b])@.name,
            decreases n - j,
        {
            let mut i: usize = 0;
            while i < j
                invariant
                    n == columns.len(),
                    i <= j < n,
                    n > 0 ==> height == columns[0]@.values.len(),
                    forall|k: int| 0 <= k < n ==> (#[trigger] columns[k])@.values.len() == height,
                    forall|a: int, b: int|
                        0 <= a < b < j ==> (#[trigger] columns[a])@.name != (#[trigger] columns[b])@.name,
                    forall|a: int| 0 <= a < i ==> (#[trigger] columns[a])@.name != columns[j as int]@.name,
                decreases j - i,
            {
                if String::eq(&columns[i].name, &columns[j].name) {
                    assert(columns[i as int]@.name == columns[j as int]@.name);
                    return Err(TableError::DuplicateName { column: j });
                }
                i += 1;
            }
            j += 1;
        }
        Ok(Table { columns, height })
    }

    /// A table of columns that are known to be `height` long and to differ in
    /// their names.
    pub(crate) fn assemble(columns: Vec<Column>, height: usize) -> (t: Table)
        requires
            (TableView { columns: column_views(columns@), height: height as nat }).wf(),
        ensures
            t@ == (TableView { columns: column_views(columns@), height: height as nat }),
    {
        Table { columns, height }
    }

    /// The rows of the table, from the first to the last.
    pub fn rows(&self) -> (r: Vec<Vec<Value>>)
        ensures
            r.len() == self@.height,
            forall|i: int|
                0 <= i < r.len() ==> (#[trigger] r[i]).len() == self@.columns.len() && forall|c: int|
                    0 <= c < self@.columns.len() ==> (#[trigger] r[i][c])@ == self@.cell(i, c),
    {
        proof {
            use_type_invariant(self);
        }
        let mut out: Vec<Vec<Value>> = Vec::new();
        let mut i: usize = 0;
        while i < self.height
            invariant
                i <= self.height,
                self@.wf(),
                self@.height == self.height,
                self@.columns.len() == self.columns.len(),
                out.len() == i,
                forall|k: int|
                    0 <= k < i ==> (#[trigger] out[k]).len() == self@.columns.len() && forall|c: int|
                        0 <= c < self@.columns.len() ==> (#[trigger] out[k][c])@ == self@.cell(k, c),
            decreases self.height - i,
        {
            let mut row: Vec<Value> = Vec::new();
            let mut c: usize = 0;
            while c < self.columns.len()
                invariant
                    i < self.height,
                    self@.wf(),
                    self@.height == self.height,
                    self@.columns.len() == self.columns.len(),
                    c <= self.columns.len(),
                    row.len() == c,
                    forall|k: int| 0 <= k < c ==> (#[trigger] row[k])@ == self@.cell(i as int, k),
                decreases self.columns.len() - c,
            {
                row.push(self.cell(i, c).clone());
                c += 1;
            }
            out.push(row);
            i += 1;
        }
        out
    }

    /// The number of columns.
    pub fn width(&self) -> (r: usize)
        ensures
            r == self@.columns.len(),
    {
        self.columns.len()
    }

    /// The number of rows.
    pub fn height(&self) -> (r: usize)
        ensures
            r == self@.height,
    {
        self.height
    }

    /// Column `col`.
    pub fn column(&self, col: usize) -> (r: &Column)
        requires
            col < self@.columns.len(),
        ensures
            r@ == self@.columns[col as int],
    {
        &self.columns[col]
    }

    /// The value in row `row` of column `col`.
    pub fn cell(&self, row: usize, col: usize) -> (r: &Value)
        requires
            row < self@.height,
            col < self@.columns.len(),
        ensures
            r@ == self@.cell(row as int, col as int),
    {
        proof {
            use_type_invariant(self);
        }
        self.columns[col].value(row)
    }

    /// The value in row `row` of column `col`, if the table has such a cell.
    pub fn get(&self, row: usize, col: usize) -> (r: Option<&Value>)
        ensures
            match r {
                Some(v) => row < self@.height && col < self@.columns.len() && v@ == self@.cell(
                    row as int,
                    col as int,
                ),
                None => row >= self@.height || col >= self@.columns.len(),
            },
    {
        proof {
            use_type_invariant(self);
        }
        if col < self.columns.len() && row < self.height {
            Some(self.columns[col].value(row))
        } else {
            None
        }
    }

    /// The index of the column called `name`, if there is one.
    pub fn column_index(&self, name: &str) -> (r: Option<usize>)
        ensures
            match r {
                Some(c) => self@.position(name@) == Some(c as int),
                None => self@.position(name@) is None,
            },
    {
        let wanted = name.to_owned();
        let mut c: usize = 0;
        while c < self.columns.len()
            invariant
                c <= self.columns.len(),
                wanted@ == name@,
                position_in(self@.names().take(c as int), name@) is None,
            decreases self.columns.len() - c,
        {
            assert(self@.names().take(c + 1).drop_last() =~= self@.names().take(c as int));
            if String::eq(&self.columns[c].name, &wanted) {
                proof {
                    lemma_position_prefix(self@.names(), name@, c + 1);
                }
                return Some(c);
            }
            c += 1;
        }
        assert(self@.names().take(self.columns.len() as int) =~= self@.names());
        None
    }
}

/// What `position_in` finds in a prefix of `names`, it finds in `names`.
pub proof fn lemma_position_prefix(names: Seq<Seq<char>>, name: Seq<char>, k: int)
    requires
        0 <= k <= names.len(),
        position_in(names.take(k), name) is Some,
    ensures
        position_in(names, name) == position_in(names.take(k), name),
    decreases names.len() - k,
{
    if k < names.len() {
        assert(names.take(k + 1).drop_last() =~= names.take(k));
        lemma_position_prefix(names, name, k + 1);
    } else {
        assert(names.take(k) =~= names);
    }
}

impl Clone for Table {
    fn clone(&self) -> (r: Self)
        ensures
            r@ == self@,
    {
        proof {
            use_type_invariant(self);
        }
        let mut columns: Vec<Column> = Vec::new();
        let mut c: usize = 0;
        while c < self.columns.len()
            invariant
                c <= self.columns.len(),
                columns.len() == c,
                forall|k: int| 0 <= k < c ==> (#[trigger] columns[k])@ == self.columns[k]@,
            decreases self.columns.len() - c,
        {
            columns.push(self.columns[c].clone());
            c += 1;
        }
        assert(column_views(columns@) =~= column_views(self.columns@));
        Table { columns, height: self.height }
    }
}

} // verus!
