//! What the engine asks of a row, and a plain row of numbers.

use vstd::prelude::*;
use std::marker::PhantomData;
use crate::selection::RowIdentity;
use crate::sorting::ColumnKey;

verus! {

/// A record that can be shown as a row: it has a stable identity, and a value can be
/// written to one of its columns, which gives a new record.
pub trait TableRow: Sized {
    /// The value of a cell, as an edit hands it in.
    type Cell;

    /// The identity of the row.
    spec fn identity_of(&self) -> RowIdentity;

    /// Whether this row is what `before` becomes when `value` is written to `column`.
    spec fn is_edit_of(&self, before: &Self, column: ColumnKey, value: Self::Cell) -> bool;

    /// The identity of the row.
    fn identity(&self) -> (id: RowIdentity)
        ensures
            id == self.identity_of(),
    ;

    /// A copy of the row in which `value` is written to `column`.  The row itself is not
    /// changed.
    fn with_cell(&self, column: ColumnKey, value: Self::Cell) -> (row: Self)
        ensures
            row.is_edit_of(self, column, value),
    ;
}

/// A row of numbers with an explicit identity.
#[derive(Debug)]
pub struct Record {
    /// The identity of the row.
    pub id: RowIdentity,
    /// The cells of the row, by column.
    pub cells: Vec<i64>,
}

impl Record {
    /// The cells after `value` was written to `column`.  A column that the row does not
    /// have is not written to.
    pub open spec fn written(cells: Seq<i64>, column: ColumnKey, value: i64) -> Seq<i64> {
        if column < cells.len() {
            cells.update(column as int, value)
        } else {
            cells
        }
    }

    /// A row of the given identity and cells.
    pub fn new(id: RowIdentity, cells: Vec<i64>) -> (row: Record)
        ensures
            row.id == id,
            row.cells == cells,
    {
        Record { id, cells }
    }

    /// The cell of `column`, if the row has that column.
    pub fn cell(&self, column: ColumnKey) -> (value: Option<i64>)
        ensures
            column < self.cells@.len() ==> value == Some(self.cells@[column as int]),
            column >= self.cells@.len() ==> value.is_none(),
    {
        if column < self.cells.len() {
            Some(self.cells[column])
        } else {
            None
        }
    }
}

impl TableRow for Record {
    type Cell = i64;

    open spec fn identity_of(&self) -> RowIdentity {
        self.id
    }

    open spec fn is_edit_of(&self, before: &Self, column: ColumnKey, value: i64) -> bool {
        &&& self.id == before.id
        &&& self.cells@ == Record::written(before.cells@, column, value)
    }

    fn identity(&self) -> (id: RowIdentity) {
        self.id
    }

    fn with_cell(&self, column: ColumnKey, value: i64) -> (row: Record) {
        let mut cells: Vec<i64> = Vec::new();
        let mut i: usize = 0;
        while i < self.cells.len()
            invariant
                i <= self.cells.len(),
                cells@ == Record::written(self.cells@, column, value).subrange(0, i as int),
            decreases self.cells.len() - i,
        {
            let cell: i64 = if i == column {
                value
            } else {
                self.cells[i]
            };
            cells.push(cell);
            i = i + 1;
        }
        assert(cells@ =~= Record::written(self.cells@, column, value));
        Record { id: self.id, cells }
    }
}

/// Type of struct field used to specify that the value of this field is
/// obtained by calling a getter method on the struct.
#[derive(Debug, PartialEq, Eq, Hash, PartialOrd, Ord, Default)]
pub struct FieldGetter<T>(PhantomData<T>);

impl<T> FieldGetter<T> {
    /// The one value of the type.
    pub closed spec fn marker() -> FieldGetter<T> {
        FieldGetter(PhantomData)
    }

    /// The marker for a field of type `T`.
    pub fn new() -> (getter: FieldGetter<T>)
        ensures
            getter == Self::marker(),
    {
        FieldGetter(PhantomData)
    }
}

impl<T: Clone> Clone for FieldGetter<T> {
    fn clone(&self) -> (getter: FieldGetter<T>)
        ensures
            getter == *self,
    {
        FieldGetter(PhantomData)
    }
}

impl<T: Copy> Copy for FieldGetter<T> {

}

} // verus!
