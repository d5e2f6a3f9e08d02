//! Rows: dense runs of cells.
//!
//! A worksheet names only the cells that hold something. A row handed out
//! by this library has a cell for every column up to its width, in order,
//! with an empty cell wherever the worksheet was silent.

use vstd::prelude::*;
use crate::cell::{
    blank_cell, blank_cell_model, decode_ref, lemma_ref_round_trip, Cell, CellModel,
};
use crate::column::XL_MAX_COL;

verus! {

/// A row of a worksheet: its cells, from column `A` on, and its number.
#[derive(Debug)]
pub struct Row<'a>(pub Vec<Cell<'a>>, pub usize);

/// What a `Row` holds, with text as its characters.
pub struct RowModel {
    pub cells: Seq<CellModel>,
    pub number: nat,
}

/// The cells of `cells` as what they hold.
pub open spec fn cell_models(cells: Seq<Cell>) -> Seq<CellModel> {
    Seq::new(cells.len(), |i: int| cells[i]@)
}

impl<'a> View for Row<'a> {
    type V = RowModel;

    open spec fn view(&self) -> RowModel {
        RowModel { cells: cell_models(self.0@), number: self.1 as nat }
    }
}

/// Whether the cells `cells` are the first cells of row `row`, one for each
/// column and in order: the address of each, decoded, is its own place.
pub open spec fn dense_cells(cells: Seq<CellModel>, row: nat) -> bool {
    &&& cells.len() <= XL_MAX_COL
    &&& row <= u32::MAX
    &&& forall|i: int|
        0 <= i < cells.len() ==> decode_ref(#[trigger] cells[i].reference) == Some(
            ((i + 1) as u16, row as u32),
        )
}

impl RowModel {
    /// Whether the row is dense: it has a cell for each of its columns, and
    /// the address of each cell is its place in the row.
    pub open spec fn wf(self) -> bool {
        dense_cells(self.cells, self.number)
    }
}

/// The empty cells of the columns after `from`, up to and with `to`, in
/// row `row`.
pub open spec fn blank_cells(from: nat, to: nat, row: nat) -> Seq<CellModel> {
    let count: nat = if from <= to {
        (to - from) as nat
    } else {
        0
    };
    Seq::new(count, |i: int| blank_cell_model((from + 1 + i) as nat, row))
}

/// `cells` with empty cells after them, so that there are `width` cells in
/// all; `cells` itself where it has as many or more.
pub open spec fn padded(cells: Seq<CellModel>, width: nat, row: nat) -> Seq<CellModel> {
    cells + blank_cells(cells.len(), width, row)
}

/// The row of number `row` that has `num_cols` cells, all of them empty.
pub open spec fn blank_row(num_cols: nat, row: nat) -> RowModel {
    RowModel { cells: blank_cells(0, num_cols, row), number: row }
}

/// Dense cells stay dense when empty cells fill them up.
pub proof fn lemma_padded_dense(cells: Seq<CellModel>, width: nat, row: nat)
    requires
        dense_cells(cells, row),
        width <= XL_MAX_COL,
    ensures
        dense_cells(padded(cells, width, row), row),
        padded(cells, width, row).len() == if cells.len() <= width {
            width
        } else {
            cells.len()
        },
{
    let p = padded(cells, width, row);
    assert forall|i: int| 0 <= i < p.len() implies decode_ref(#[trigger] p[i].reference) == Some(
        ((i + 1) as u16, row as u32),
    ) by {
        if i < cells.len() {
            assert(p[i] == cells[i]);
        } else {
            assert(p[i] == blank_cell_model((i + 1) as nat, row));
            lemma_ref_round_trip((i + 1) as nat, row);
        }
    }
}

/// A row of empty cells is dense.
pub proof fn lemma_blank_row_dense(num_cols: nat, row: nat)
    requires
        num_cols <= XL_MAX_COL,
        row <= u32::MAX,
    ensures
        blank_row(num_cols, row).wf(),
        blank_row(num_cols, row).cells.len() == num_cols,
{
    let none = Seq::<CellModel>::empty();
    lemma_padded_dense(none, num_cols, row);
    assert(padded(none, num_cols, row) =~= blank_cells(0, num_cols, row));
}

/// Fills `row` up with empty cells of row `this_row` until it has `width`
/// cells; a row that has as many is left as it is.
pub fn pad_row(row: &mut Vec<Cell<'_>>, width: u16, this_row: u32)
    ensures
        cell_models(final(row)@) == padded(cell_models(old(row)@), width as nat, this_row as nat),
{
    let ghost before = cell_models(row@);
    while row.len() < width as usize
        invariant
            before == cell_models(old(row)@),
            before.len() <= row.len(),
            row.len() <= width || row.len() == before.len(),
            cell_models(row@) == before + blank_cells(
                before.len(),
                row.len() as nat,
                this_row as nat,
            ),
        decreases width - row.len(),
    {
        let ghost models = cell_models(row@);
        let cell = blank_cell((row.len() + 1) as u16, this_row);
        row.push(cell);
        assert(cell_models(row@) =~= models.push(cell@));
        assert(models.push(cell@) =~= before + blank_cells(
            before.len(),
            row.len() as nat,
            this_row as nat,
        ));
    }
    assert(cell_models(row@) =~= padded(before, width as nat, this_row as nat));
}

/// The row of number `this_row` that has `num_cols` cells, all of them
/// empty.
pub fn empty_row(num_cols: u16, this_row: u32) -> (r: Row<'static>)
    ensures
        r@ == blank_row(num_cols as nat, this_row as nat),
{
    let mut row: Vec<Cell<'static>> = Vec::new();
    pad_row(&mut row, num_cols, this_row);
    assert(cell_models(row@) =~= blank_cells(0, num_cols as nat, this_row as nat));
    Row(row, this_row as usize)
}

impl<'a> vstd::std_specs::core::IndexSpecImpl<u16> for Row<'a> {
    /// A row can be asked for the cells it has.
    open spec fn index_req(&self, index: &u16) -> bool {
        *index < self.0.len()
    }
}

impl<'a> std::ops::Index<u16> for Row<'a> {
    type Output = Cell<'a>;

    /// The cell at `column_index`, counted from 0.
    fn index(&self, column_index: u16) -> (r: &Cell<'a>)
        ensures
            *r == self.0[column_index as int],
    {
        &self.0[column_index as usize]
    }
}

} // verus!
