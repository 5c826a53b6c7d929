use vstd::prelude::*;

use crate::cell::{code_of, Cell};

verus! {

/// The linear position of `(row, column)` in a row-major grid of the given
/// width.
pub open spec fn index_of(width: nat, row: nat, column: nat) -> nat {
    row * width + column
}

/// The cell at `(row, column)` of a row-major grid.
pub open spec fn cell_at(cells: Seq<Cell>, width: nat, row: nat, column: nat) -> Cell {
    cells[index_of(width, row, column) as int]
}

/// A well-formed grid: positive dimensions and exactly `width * height` cells.
pub open spec fn grid_ok(cells: Seq<Cell>, width: nat, height: nat) -> bool {
    &&& width >= 1
    &&& height >= 1
    &&& cells.len() == width * height
}

/// The offsets tried along an axis of length `n`: `n - 1` (one step back,
/// modulo `n`), `0` and `1`, in that order.
pub open spec fn offset(n: nat, k: nat) -> nat {
    if k == 0 {
        (n - 1) as nat
    } else if k == 1 {
        0
    } else {
        1
    }
}

/// What the neighbour at offset `(dr, dc)` of `(row, column)` adds to the
/// count: nothing for the offset `(0, 0)`, else the code of the cell found by
/// wrapping the row modulo `height` and the column modulo `width`.
pub open spec fn neighbor_term(
    cells: Seq<Cell>,
    width: nat,
    height: nat,
    row: nat,
    column: nat,
    dr: nat,
    dc: nat,
) -> nat {
    if dr == 0 && dc == 0 {
        0
    } else {
        code_of(cell_at(cells, width, (row + dr) % height, (column + dc) % width))
    }
}

/// The live neighbours of `(row, column)` along one row offset.
pub open spec fn row_neighbors(
    cells: Seq<Cell>,
    width: nat,
    height: nat,
    row: nat,
    column: nat,
    dr: nat,
) -> nat {
    neighbor_term(cells, width, height, row, column, dr, offset(width, 0))
        + neighbor_term(cells, width, height, row, column, dr, offset(width, 1))
        + neighbor_term(cells, width, height, row, column, dr, offset(width, 2))
}

/// The number of live cells among the toroidal neighbours of `(row, column)`:
/// the nine combinations of row and column offsets, the zero offset left out.
pub open spec fn live_neighbors(
    cells: Seq<Cell>,
    width: nat,
    height: nat,
    row: nat,
    column: nat,
) -> nat {
    row_neighbors(cells, width, height, row, column, offset(height, 0))
        + row_neighbors(cells, width, height, row, column, offset(height, 1))
        + row_neighbors(cells, width, height, row, column, offset(height, 2))
}

/// The Life rule: the state a cell takes in the next generation, from its
/// current state and its number of live neighbours.
pub open spec fn next_state(cell: Cell, live: nat) -> Cell {
    match cell {
        Cell::Alive => if live == 2 || live == 3 {
            Cell::Alive
        } else {
            Cell::Dead
        },
        Cell::Dead => if live == 3 {
            Cell::Alive
        } else {
            Cell::Dead
        },
    }
}

/// The next generation of a row-major grid: every cell follows the rule at
/// once, with its neighbours counted in the current generation.
pub open spec fn next_generation(cells: Seq<Cell>, width: nat, height: nat) -> Seq<Cell> {
    Seq::new(
        cells.len(),
        |k: int| next_state(cells[k], live_neighbors(cells, width, height, k as nat / width, k as nat % width)),
    )
}

/// The glyph that stands for a cell in the text rendering.
pub open spec fn glyph(cell: Cell) -> char {
    match cell {
        Cell::Dead => '\u{25FB}',
        Cell::Alive => '\u{25FC}',
    }
}

/// The first `columns` glyphs of row `row`.
pub open spec fn row_glyphs(cells: Seq<Cell>, width: nat, row: nat, columns: nat) -> Seq<char> {
    Seq::new(columns, |j: int| glyph(cell_at(cells, width, row, j as nat)))
}

/// The text of the first `rows` rows: for each row its glyphs, then a
/// newline.
pub open spec fn grid_text(cells: Seq<Cell>, width: nat, rows: nat) -> Seq<char>
    decreases rows,
{
    if rows == 0 {
        Seq::empty()
    } else {
        let before = (rows - 1) as nat;
        grid_text(cells, width, before) + row_glyphs(cells, width, before, width).push('\n')
    }
}

/// The Life rule on executable values.
pub fn next_cell(cell: Cell, live: u8) -> (r: Cell)
    ensures
        r == next_state(cell, live as nat),
{
    match cell {
        Cell::Alive => if live < 2 {
            Cell::Dead
        } else if live == 2 || live == 3 {
            Cell::Alive
        } else {
            Cell::Dead
        },
        Cell::Dead => if live == 3 {
            Cell::Alive
        } else {
            Cell::Dead
        },
    }
}

} // verus!
