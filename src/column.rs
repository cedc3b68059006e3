use vstd::prelude::*;

use crate::error::VirtualTableError;
use crate::value::{Cell, CellView, DataType, Index, TableValue};

verus! {

/// A column as plain data: its schema and its cells, by row position.
pub struct ColumnView {
    pub identifier: String,
    pub data_type: DataType,
    pub is_nullable: bool,
    pub cells: Seq<CellView>,
}

/// Whether a cell of this type and value may stand in the column.
/// A null passes any nullable column, whatever type it carries.
pub open spec fn write_error(col: ColumnView, cell: CellView) -> Option<VirtualTableError> {
    if cell.data_type != col.data_type && !(cell.value is Null && col.is_nullable) {
        Some(VirtualTableError::InvalidDataType(col.identifier, col.data_type, cell.data_type))
    } else if !col.is_nullable && cell.value is Null {
        Some(VirtualTableError::InvalidNullValue(col.identifier))
    } else {
        None
    }
}

/// The cells after a write at `index`: appended at the end, replaced before it.
pub open spec fn put_cell(cells: Seq<CellView>, index: int, cell: CellView) -> Seq<CellView> {
    if index == cells.len() {
        cells.push(cell)
    } else {
        cells.update(index, cell)
    }
}

/// The column with other cells.
pub open spec fn with_cells(col: ColumnView, cells: Seq<CellView>) -> ColumnView {
    ColumnView { cells, ..col }
}

/// A typed, densely packed sequence of cells, one for each row position.
#[derive(Debug)]
pub struct Column {
    identifier: String,
    data_type: DataType,
    is_nullable: bool,
    values: Vec<Cell>,
}

impl View for Column {
    type V = ColumnView;

    closed spec fn view(&self) -> ColumnView {
        ColumnView {
            identifier: self.identifier,
            data_type: self.data_type,
            is_nullable: self.is_nullable,
            cells: self.values@.map_values(|c: Cell| c@),
        }
    }
}

impl Column {
    /// An empty column.
    pub fn create(identifier: String, data_type: DataType, is_nullable: bool) -> (r: Column)
        ensures
            r@ == (ColumnView { identifier, data_type, is_nullable, cells: Seq::empty() }),
    {
        let r = Column { identifier, data_type, is_nullable, values: Vec::new() };
        assert(r@.cells =~= Seq::empty());
        r
    }

    /// A column never holds more cells than a `usize` can count.
    pub proof fn lemma_len_bound(&self)
        ensures
            self@.cells.len() <= usize::MAX,
    {
        assert(self.values@.len() == self.values.len());
    }

    /// The name of the column.
    pub fn identifier(&self) -> (r: &String)
        ensures
            *r == self@.identifier,
    {
        &self.identifier
    }

    /// The type of the column.
    pub fn data_type(&self) -> (r: DataType)
        ensures
            r == self@.data_type,
    {
        self.data_type
    }

    /// Whether the column accepts nulls.
    pub fn is_nullable(&self) -> (r: bool)
        ensures
            r == self@.is_nullable,
    {
        self.is_nullable
    }

    /// The number of cells.
    pub fn len(&self) -> (r: usize)
        ensures
            r == self@.cells.len(),
    {
        self.values.len()
    }

    /// What the column says of a cell: the error a write of it would give, if any.
    pub fn check_cell(&self, cell: &Cell) -> (r: Option<VirtualTableError>)
        ensures
            r == write_error(self@, cell@),
    {
        if self.data_type != cell.data_type() && !(cell.value().is_null() && self.is_nullable) {
            Some(
                VirtualTableError::InvalidDataType(
                    self.identifier.clone(),
                    self.data_type,
                    cell.data_type(),
                ),
            )
        } else if !self.is_nullable && cell.value().is_null() {
            Some(VirtualTableError::InvalidNullValue(self.identifier.clone()))
        } else {
            None
        }
    }

    /// Writes a cell at `index`, appending when `index` is the length.
    /// A cell of another type, or a null in a column without nulls, is refused
    /// and leaves the column as it was.
    pub(crate) fn set_cell(&mut self, index: Index, cell: Cell) -> (r: Result<(), VirtualTableError>)
        requires
            index <= old(self)@.cells.len(),
        ensures
            match write_error(old(self)@, cell@) {
                Some(e) => r == Err::<(), VirtualTableError>(e) && final(self)@ == old(self)@,
                None => r is Ok && final(self)@ == with_cells(
                    old(self)@,
                    put_cell(old(self)@.cells, index as int, cell@),
                ),
            },
    {
        if self.data_type != cell.data_type() && !(cell.value().is_null() && self.is_nullable) {
            return Err(
                VirtualTableError::InvalidDataType(
                    self.identifier.clone(),
                    self.data_type,
                    cell.data_type(),
                ),
            );
        }
        if !self.is_nullable && cell.value().is_null() {
            return Err(VirtualTableError::InvalidNullValue(self.identifier.clone()));
        }
        let ghost before = self@;
        if index == self.values.len() {
            self.values.push(cell);
        } else {
            self.values.set(index, cell);
        }
        assert(self@.cells =~= put_cell(before.cells, index as int, cell@));
        Ok(())
    }

    /// Removes and returns the cell at `index`; later cells move down by one.
    pub(crate) fn destroy_cell(&mut self, index: Index) -> (r: Result<Cell, VirtualTableError>)
        ensures
            index >= old(self)@.cells.len() ==> r == Err::<Cell, VirtualTableError>(
                VirtualTableError::InvalidRowIndex(index),
            ) && final(self)@ == old(self)@,
            index < old(self)@.cells.len() ==> r is Ok && r->Ok_0@ == old(self)@.cells[index as int]
                && final(self)@ == with_cells(old(self)@, old(self)@.cells.remove(index as int)),
    {
        if index >= self.values.len() {
            return Err(VirtualTableError::InvalidRowIndex(index));
        }
        let ghost before = self@;
        let c = self.values.remove(index);
        assert(self@.cells =~= before.cells.remove(index as int));
        Ok(c)
    }

    /// Puts back a cell at `index` as it is given; used to undo a write.
    pub(crate) fn restore_cell(&mut self, index: Index, cell: Cell)
        requires
            index < old(self)@.cells.len(),
        ensures
            final(self)@ == with_cells(old(self)@, old(self)@.cells.update(index as int, cell@)),
    {
        let ghost before = self@;
        self.values.set(index, cell);
        assert(self@.cells =~= before.cells.update(index as int, cell@));
    }

    /// The cell at `index`, if there is one.
    pub fn cell_at(&self, index: Index) -> (r: Option<&Cell>)
        ensures
            index < self@.cells.len() ==> r is Some && r->Some_0@ == self@.cells[index as int],
            index >= self@.cells.len() ==> r is None,
    {
        if index < self.values.len() {
            Some(&self.values[index])
        } else {
            None
        }
    }

    /// The value at `index`, if there is one.
    pub fn value_at(&self, index: Index) -> (r: Option<&TableValue>)
        ensures
            index < self@.cells.len() ==> r is Some && r->Some_0@ == self@.cells[index as int].value,
            index >= self@.cells.len() ==> r is None,
    {
        if index < self.values.len() {
            Some(self.values[index].value())
        } else {
            None
        }
    }
}

} // verus!
