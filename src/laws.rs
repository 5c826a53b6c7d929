//! Properties of the Life model that hold of every grid.
use vstd::arithmetic::div_mod::{
    lemma_fundamental_div_mod, lemma_fundamental_div_mod_converse, lemma_mod_pos_bound,
};
use vstd::prelude::*;

use crate::cell::Cell;
use crate::rules::{cell_at, grid_ok, index_of, live_neighbors, next_generation, next_state};
use crate::universe::set_alive_cells;

verus! {

/// Whether `x` is one of the two consecutive positions `start` and
/// `start + 1` (modulo `n`) on an axis of length `n`.
pub open spec fn in_pair(x: nat, start: nat, n: nat) -> bool {
    x == start || x == (start + 1) % n
}

/// A grid that is dead but for a 2 by 2 block of live cells whose top-left
/// corner is `(top, left)`; the block wraps round the edges like any
/// neighbourhood.
pub open spec fn block_grid(width: nat, height: nat, top: nat, left: nat) -> Seq<Cell> {
    Seq::new(
        width * height,
        |k: int|
            if in_pair(k as nat / width, top, height) && in_pair(k as nat % width, left, width) {
                Cell::Alive
            } else {
                Cell::Dead
            },
    )
}

/// Reducing a value below `2 * n` modulo `n` subtracts `n` at most once.
proof fn lemma_wrap(x: nat, n: nat)
    requires
        n > 0,
        x < 2 * n,
    ensures
        x % n == if x < n {
            x
        } else {
            (x - n) as nat
        },
{
    if x < n {
        lemma_fundamental_div_mod_converse(x as int, n as int, 0, x as int);
    } else {
        lemma_fundamental_div_mod_converse(x as int, n as int, 1, x - n);
    }
}

/// The position `(row, column)` is where the index `row * width + column`
/// points back to.
proof fn lemma_index_inverse(width: nat, row: nat, column: nat)
    requires
        column < width,
    ensures
        index_of(width, row, column) / width == row,
        index_of(width, row, column) % width == column,
{
    lemma_fundamental_div_mod_converse(
        index_of(width, row, column) as int,
        width as int,
        row as int,
        column as int,
    );
}

/// On an axis of length at least 3, a position inside a pair has exactly
/// one of its two wrapped neighbours in that pair.
proof fn lemma_pair_axis(n: nat, start: nat, i: nat)
    requires
        n >= 3,
        start < n,
        i < n,
    ensures
        in_pair(i, start, n) ==> (in_pair((i + (n - 1) as nat) % n, start, n) != in_pair(
            (i + 1) % n,
            start,
            n,
        )),
{
    lemma_wrap(i + (n - 1) as nat, n);
    lemma_wrap(i + 1, n);
    lemma_wrap(start + 1, n);
}

/// The cell of a block grid at an on-grid position.
proof fn lemma_block_cell(width: nat, height: nat, top: nat, left: nat, row: nat, column: nat)
    requires
        width >= 1,
        row < height,
        column < width,
    ensures
        cell_at(block_grid(width, height, top, left), width, row, column) == if in_pair(
            row,
            top,
            height,
        ) && in_pair(column, left, width) {
            Cell::Alive
        } else {
            Cell::Dead
        },
{
    lemma_index_inverse(width, row, column);
    assert(index_of(width, row, column) < width * height) by (nonlinear_arith)
        requires
            row < height,
            column < width,
    ;
}

/// Still life: on a grid at least 4 by 4, a lone 2 by 2 block of live cells
/// is left unchanged by a generation, wherever it stands.
pub proof fn lemma_block_is_still_life(width: nat, height: nat, top: nat, left: nat)
    requires
        width >= 4,
        height >= 4,
        top < height,
        left < width,
    ensures
        next_generation(block_grid(width, height, top, left), width, height) == block_grid(
            width,
            height,
            top,
            left,
        ),
{
    let cells = block_grid(width, height, top, left);
    let next = next_generation(cells, width, height);
    assert forall|k: int| 0 <= k < cells.len() implies next[k] == cells[k] by {
        let row = k as nat / width;
        let column = k as nat % width;
        lemma_fundamental_div_mod(k, width as int);
        lemma_mod_pos_bound(k, width as int);
        assert(row < height) by (nonlinear_arith)
            requires
                k == width * row + column,
                0 <= column,
                k < width * height,
        ;
        let up = (row + (height - 1) as nat) % height;
        let down = (row + 1) % height;
        let lt = (column + (width - 1) as nat) % width;
        let rt = (column + 1) % width;
        lemma_wrap(row + (height - 1) as nat, height);
        lemma_wrap(row + 1, height);
        lemma_wrap(column + (width - 1) as nat, width);
        lemma_wrap(column + 1, width);
        lemma_wrap(row, height);
        lemma_wrap(column, width);
        lemma_pair_axis(height, top, row);
        lemma_pair_axis(width, left, column);
        lemma_block_cell(width, height, top, left, up, lt);
        lemma_block_cell(width, height, top, left, up, column);
        lemma_block_cell(width, height, top, left, up, rt);
        lemma_block_cell(width, height, top, left, row, lt);
        lemma_block_cell(width, height, top, left, row, rt);
        lemma_block_cell(width, height, top, left, down, lt);
        lemma_block_cell(width, height, top, left, down, column);
        lemma_block_cell(width, height, top, left, down, rt);
        lemma_block_cell(width, height, top, left, row, column);
    }
    assert(next =~= cells);
}

/// Underpopulation: a live cell with no live neighbour is dead in the next
/// generation.
pub proof fn lemma_isolated_cell_dies(
    cells: Seq<Cell>,
    width: nat,
    height: nat,
    row: nat,
    column: nat,
)
    requires
        grid_ok(cells, width, height),
        row < height,
        column < width,
        cell_at(cells, width, row, column) == Cell::Alive,
        live_neighbors(cells, width, height, row, column) == 0,
    ensures
        cell_at(next_generation(cells, width, height), width, row, column) == Cell::Dead,
{
    lemma_index_inverse(width, row, column);
    lemma_index_below(width, height, row, column);
}

/// Reproduction: a dead cell with exactly three live neighbours is alive in
/// the next generation.
pub proof fn lemma_three_neighbors_reproduce(
    cells: Seq<Cell>,
    width: nat,
    height: nat,
    row: nat,
    column: nat,
)
    requires
        grid_ok(cells, width, height),
        row < height,
        column < width,
        cell_at(cells, width, row, column) == Cell::Dead,
        live_neighbors(cells, width, height, row, column) == 3,
    ensures
        cell_at(next_generation(cells, width, height), width, row, column) == Cell::Alive,
{
    lemma_index_inverse(width, row, column);
    lemma_index_below(width, height, row, column);
}

/// An on-grid position has an index inside the grid.
proof fn lemma_index_below(width: nat, height: nat, row: nat, column: nat)
    requires
        row < height,
        column < width,
    ensures
        index_of(width, row, column) < width * height,
{
    assert(row * width + column < width * height) by (nonlinear_arith)
        requires
            row < height,
            column < width,
    ;
}

/// Toroidal wraparound: a live cell in the bottom-right corner counts as a
/// neighbour of the top-left cell.
pub proof fn lemma_corner_wraps(cells: Seq<Cell>, width: nat, height: nat)
    requires
        grid_ok(cells, width, height),
        cell_at(cells, width, (height - 1) as nat, (width - 1) as nat) == Cell::Alive,
    ensures
        live_neighbors(cells, width, height, 0, 0) >= 1,
{
    lemma_wrap((height - 1) as nat, height);
    lemma_wrap((width - 1) as nat, width);
    lemma_wrap(1, height);
    lemma_wrap(1, width);
}

/// Making a cell alive twice leaves the same grid as doing it once: that
/// cell alive when it lies on the grid, and every other cell as it was.
pub proof fn lemma_set_alive_idempotent(
    cells: Seq<Cell>,
    width: nat,
    height: nat,
    row: nat,
    column: nat,
)
    requires
        grid_ok(cells, width, height),
    ensures
        set_alive_cells(set_alive_cells(cells, width, height, row, column), width, height, row, column)
            == set_alive_cells(cells, width, height, row, column),
        row < height && column < width ==> cell_at(
            set_alive_cells(cells, width, height, row, column),
            width,
            row,
            column,
        ) == Cell::Alive,
        forall|k: int|
            0 <= k < cells.len() && k != index_of(width, row, column) ==> #[trigger] set_alive_cells(
                cells,
                width,
                height,
                row,
                column,
            )[k] == cells[k],
{
    if row < height && column < width {
        lemma_index_below(width, height, row, column);
        let once = set_alive_cells(cells, width, height, row, column);
        assert(set_alive_cells(once, width, height, row, column) =~= once);
    }
}

} // verus!
