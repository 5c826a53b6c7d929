use vstd::arithmetic::div_mod::lemma_fundamental_div_mod_converse;
use vstd::prelude::*;

use crate::cell::Cell;
use crate::rules::{
    cell_at, glyph, grid_ok, grid_text, index_of, live_neighbors, neighbor_term, next_cell,
    next_generation, row_glyphs, row_neighbors,
};

verus! {

/// Why an operation on a [`Universe`] was refused.
#[derive(Clone, Copy, Debug, PartialEq, Eq, Structural)]
pub enum UniverseError {
    /// A width or a height of zero.
    EmptyGrid,
    /// A cell buffer whose length is not `width * height`.
    SizeMismatch,
    /// A row at or past the height, or a column at or past the width.
    OutOfRange,
}

/// The cells that `set_alive(row, column)` leaves: the cell at
/// `(row, column)` made alive when it lies on the grid, else no change.
pub open spec fn set_alive_cells(
    cells: Seq<Cell>,
    width: nat,
    height: nat,
    row: nat,
    column: nat,
) -> Seq<Cell> {
    if row < height && column < width {
        cells.update(index_of(width, row, column) as int, Cell::Alive)
    } else {
        cells
    }
}

/// The cells that `generate_glider` leaves: the five cells of a glider,
/// (1,2), (2,3), (3,1), (3,2) and (3,3), made alive one after another, each
/// one that lies off the grid skipped.
pub open spec fn glider_cells(cells: Seq<Cell>, width: nat, height: nat) -> Seq<Cell> {
    let c1 = set_alive_cells(cells, width, height, 1, 2);
    let c2 = set_alive_cells(c1, width, height, 2, 3);
    let c3 = set_alive_cells(c2, width, height, 3, 1);
    let c4 = set_alive_cells(c3, width, height, 3, 2);
    set_alive_cells(c4, width, height, 3, 3)
}

/// The width of a universe made by `new`.
pub const DEFAULT_WIDTH: u32 = 64;

/// The height of a universe made by `new`.
pub const DEFAULT_HEIGHT: u32 = 64;

/// A fixed-size toroidal grid of cells, stored row-major.
pub struct Universe {
    width: u32,
    height: u32,
    cells: Vec<Cell>,
}

impl Universe {
    /// The number of columns.
    pub closed spec fn grid_width(&self) -> nat {
        self.width as nat
    }

    /// The number of rows.
    pub closed spec fn grid_height(&self) -> nat {
        self.height as nat
    }

    /// The cells, row-major.
    pub closed spec fn grid(&self) -> Seq<Cell> {
        self.cells@
    }

    /// Positive dimensions and exactly `width * height` cells: what every
    /// constructor establishes and every operation keeps.
    pub open spec fn wf(&self) -> bool {
        grid_ok(self.grid(), self.grid_width(), self.grid_height())
    }

    /// A universe of the given dimensions holding `cells`, row-major.
    /// A zero dimension is refused with `EmptyGrid`; a buffer whose length is
    /// not `width * height` with `SizeMismatch`.
    pub fn from_cells(width: u32, height: u32, cells: Vec<Cell>) -> (r: Result<Universe, UniverseError>)
        ensures
            r is Ok <==> (width >= 1 && height >= 1 && cells@.len() == width * height),
            (width == 0 || height == 0) ==> r == Err::<Universe, UniverseError>(UniverseError::EmptyGrid),
            (width >= 1 && height >= 1 && cells@.len() != width * height) ==> r == Err::<
                Universe,
                UniverseError,
            >(UniverseError::SizeMismatch),
            r matches Ok(u) ==> {
                &&& u.wf()
                &&& u.grid_width() == width
                &&& u.grid_height() == height
                &&& u.grid() == cells@
            },
    {
        if width == 0 || height == 0 {
            return Err(UniverseError::EmptyGrid);
        }
        proof {
            assert(width as nat * height as nat <= u32::MAX as nat * u32::MAX as nat) by (nonlinear_arith)
                requires
                    width <= u32::MAX,
                    height <= u32::MAX,
            ;
        }
        if cells.len() as u64 != width as u64 * height as u64 {
            return Err(UniverseError::SizeMismatch);
        }
        Ok(Universe { width, height, cells })
    }

    /// A `DEFAULT_WIDTH` by `DEFAULT_HEIGHT` universe holding the drawn states
    /// `initial`, with a glider laid over them. A buffer of another length is
    /// refused with `SizeMismatch`.
    pub fn new(initial: Vec<Cell>) -> (r: Result<Universe, UniverseError>)
        ensures
            r is Ok <==> initial@.len() == DEFAULT_WIDTH * DEFAULT_HEIGHT,
            r matches Err(e) ==> e == UniverseError::SizeMismatch,
            r matches Ok(u) ==> {
                &&& u.wf()
                &&& u.grid_width() == DEFAULT_WIDTH
                &&& u.grid_height() == DEFAULT_HEIGHT
                &&& u.grid() == glider_cells(initial@, DEFAULT_WIDTH as nat, DEFAULT_HEIGHT as nat)
                &&& cell_at(u.grid(), DEFAULT_WIDTH as nat, 1, 2) == Cell::Alive
                &&& cell_at(u.grid(), DEFAULT_WIDTH as nat, 2, 3) == Cell::Alive
                &&& cell_at(u.grid(), DEFAULT_WIDTH as nat, 3, 1) == Cell::Alive
                &&& cell_at(u.grid(), DEFAULT_WIDTH as nat, 3, 2) == Cell::Alive
                &&& cell_at(u.grid(), DEFAULT_WIDTH as nat, 3, 3) == Cell::Alive
            },
    {
        let mut universe = match Universe::from_cells(DEFAULT_WIDTH, DEFAULT_HEIGHT, initial) {
            Ok(u) => u,
            Err(e) => return Err(e),
        };
        universe.generate_glider();
        Ok(universe)
    }

    /// The number of columns.
    pub fn width(&self) -> (r: u32)
        ensures
            r == self.grid_width(),
    {
        self.width
    }

    /// The number of rows.
    pub fn height(&self) -> (r: u32)
        ensures
            r == self.grid_height(),
    {
        self.height
    }

    /// The cells of the current generation, row-major.
    pub fn cells(&self) -> (r: &[Cell])
        requires
            self.wf(),
        ensures
            r@ == self.grid(),
            r@.len() == self.grid_width() * self.grid_height(),
    {
        self.cells.as_slice()
    }

    fn get_index(&self, row: u32, column: u32) -> (r: usize)
        requires
            self.wf(),
            row < self.grid_height(),
            column < self.grid_width(),
        ensures
            r == index_of(self.grid_width(), row as nat, column as nat),
            r < self.grid().len(),
    {
        // The buffer's length is a usize, so an index below it fits one.
        let cell_count = self.cells.len();
        proof {
            lemma_index_in_grid(self.width as nat, self.height as nat, row as nat, column as nat);
            assert(index_of(self.width as nat, row as nat, column as nat) < cell_count);
        }
        row as usize * self.width as usize + column as usize
    }

    /// What the neighbour at offset `(dr, dc)` of `(row, column)` adds to the
    /// live count.
    fn neighbor_at(&self, row: u32, column: u32, dr: u32, dc: u32) -> (r: u8)
        requires
            self.wf(),
        ensures
            r as nat == neighbor_term(
                self.grid(),
                self.grid_width(),
                self.grid_height(),
                row as nat,
                column as nat,
                dr as nat,
                dc as nat,
            ),
            r <= 1,
    {
        if dr == 0 && dc == 0 {
            return 0;
        }
        let neighbor_row = ((row as u64 + dr as u64) % self.height as u64) as u32;
        let neighbor_col = ((column as u64 + dc as u64) % self.width as u64) as u32;
        let idx = self.get_index(neighbor_row, neighbor_col);
        self.cells[idx].code()
    }

    /// The live neighbours of `(row, column)` along the row offset `dr`.
    fn row_neighbor_count(&self, row: u32, column: u32, dr: u32) -> (r: u8)
        requires
            self.wf(),
        ensures
            r as nat == row_neighbors(
                self.grid(),
                self.grid_width(),
                self.grid_height(),
                row as nat,
                column as nat,
                dr as nat,
            ),
            r <= 3,
    {
        self.neighbor_at(row, column, dr, self.width - 1) + self.neighbor_at(row, column, dr, 0)
            + self.neighbor_at(row, column, dr, 1)
    }

    /// The number of live cells among the eight toroidal neighbours of
    /// `(row, column)`. Rows wrap modulo the height and columns modulo the
    /// width, so coordinates past the edge are taken modulo the dimensions.
    /// On a grid one cell high or wide a neighbour may be the cell itself, or
    /// be counted more than once.
    pub fn get_live_neighbor_count(&self, row: u32, column: u32) -> (r: u8)
        requires
            self.wf(),
        ensures
            r as nat == live_neighbors(
                self.grid(),
                self.grid_width(),
                self.grid_height(),
                row as nat,
                column as nat,
            ),
            r <= 8,
    {
        self.row_neighbor_count(row, column, self.height - 1) + self.row_neighbor_count(row, column, 0)
            + self.row_neighbor_count(row, column, 1)
    }

    /// Makes the cell at `(row, column)` alive. A coordinate off the grid is
    /// refused with `OutOfRange` and leaves the grid as it was.
    pub fn set_alive(&mut self, row: u32, column: u32) -> (r: Result<(), UniverseError>)
        requires
            old(self).wf(),
        ensures
            final(self).wf(),
            final(self).grid_width() == old(self).grid_width(),
            final(self).grid_height() == old(self).grid_height(),
            final(self).grid() == set_alive_cells(
                old(self).grid(),
                old(self).grid_width(),
                old(self).grid_height(),
                row as nat,
                column as nat,
            ),
            r is Err <==> (row >= old(self).grid_height() || column >= old(self).grid_width()),
            r matches Err(e) ==> e == UniverseError::OutOfRange,
    {
        if row >= self.height || column >= self.width {
            return Err(UniverseError::OutOfRange);
        }
        let idx = self.get_index(row, column);
        self.cells.set(idx, Cell::Alive);
        Ok(())
    }

    /// Advances one generation: every cell follows the Life rule at once,
    /// its neighbours counted in the generation before.
    pub fn tick(&mut self)
        requires
            old(self).wf(),
        ensures
            final(self).wf(),
            final(self).grid_width() == old(self).grid_width(),
            final(self).grid_height() == old(self).grid_height(),
            final(self).grid() == next_generation(
                old(self).grid(),
                old(self).grid_width(),
                old(self).grid_height(),
            ),
    {
        let ghost w = self.width as nat;
        let ghost h = self.height as nat;
        let ghost next_gen = next_generation(self.cells@, w, h);
        let mut next: Vec<Cell> = Vec::new();
        let mut row: u32 = 0;
        while row < self.height
            invariant
                self.wf(),
                w == self.width,
                h == self.height,
                next_gen == next_generation(self.cells@, w, h),
                next_gen.len() == w * h,
                row <= h,
                next@.len() == row * w,
                next@.len() <= w * h,
                forall|k: int| 0 <= k < next@.len() ==> next@[k] == next_gen[k],
            decreases h - row,
        {
            let mut column: u32 = 0;
            while column < self.width
                invariant
                    self.wf(),
                    w == self.width,
                    h == self.height,
                    next_gen == next_generation(self.cells@, w, h),
                    next_gen.len() == w * h,
                    row < h,
                    column <= w,
                    next@.len() == row * w + column,
                    next@.len() <= w * h,
                    forall|k: int| 0 <= k < next@.len() ==> next@[k] == next_gen[k],
                decreases w - column,
            {
                let idx = self.get_index(row, column);
                let cell = self.cells[idx];
                let live = self.get_live_neighbor_count(row, column);
                proof {
                    lemma_fundamental_div_mod_converse(idx as int, w as int, row as int, column as int);
                    lemma_index_in_grid(w, h, row as nat, column as nat);
                }
                next.push(next_cell(cell, live));
                column += 1;
            }
            proof {
                assert((row + 1) * w == row * w + w) by (nonlinear_arith);
                assert((row + 1) * w <= w * h) by (nonlinear_arith)
                    requires
                        row < h,
                ;
            }
            row += 1;
        }
        proof {
            assert(row * w == w * h) by (nonlinear_arith)
                requires
                    row == h,
            ;
            assert(next@ =~= next_gen);
        }
        self.cells = next;
    }

    /// Lays a glider over the grid: the cells (1,2), (2,3), (3,1), (3,2) and
    /// (3,3) are made alive. On a grid smaller than 4 by 4 those of the five
    /// that fall off the grid are skipped.
    pub fn generate_glider(&mut self)
        requires
            old(self).wf(),
        ensures
            final(self).wf(),
            final(self).grid_width() == old(self).grid_width(),
            final(self).grid_height() == old(self).grid_height(),
            final(self).grid() == glider_cells(
                old(self).grid(),
                old(self).grid_width(),
                old(self).grid_height(),
            ),
    {
        let _ = self.set_alive(1, 2);
        let _ = self.set_alive(2, 3);
        let _ = self.set_alive(3, 1);
        let _ = self.set_alive(3, 2);
        let _ = self.set_alive(3, 3);
    }

    /// The grid as text: one line per row, one glyph per cell (a white square
    /// for a dead cell, a black one for a live cell), each line ended by a
    /// newline.
    pub fn render(&self) -> (r: String)
        requires
            self.wf(),
        ensures
            r@ == grid_text(self.grid(), self.grid_width(), self.grid_height()),
    {
        let ghost w = self.width as nat;
        let mut text = String::new();
        let mut row: u32 = 0;
        while row < self.height
            invariant
                self.wf(),
                w == self.width,
                row <= self.height,
                text@ == grid_text(self.cells@, w, row as nat),
            decreases self.height - row,
        {
            let mut column: u32 = 0;
            while column < self.width
                invariant
                    self.wf(),
                    w == self.width,
                    row < self.height,
                    column <= self.width,
                    text@ == grid_text(self.cells@, w, row as nat) + row_glyphs(
                        self.cells@,
                        w,
                        row as nat,
                        column as nat,
                    ),
                decreases self.width - column,
            {
                let idx = self.get_index(row, column);
                let ghost before = text@;
                match self.cells[idx] {
                    Cell::Dead => {
                        proof {
                            reveal_strlit("\u{25FB}");
                        }
                        text.append("\u{25FB}");
                    },
                    Cell::Alive => {
                        proof {
                            reveal_strlit("\u{25FC}");
                        }
                        text.append("\u{25FC}");
                    },
                }
                proof {
                    assert(text@ == before.push(glyph(self.cells@[idx as int])));
                    assert(row_glyphs(self.cells@, w, row as nat, (column + 1) as nat) =~= row_glyphs(
                        self.cells@,
                        w,
                        row as nat,
                        column as nat,
                    ).push(glyph(self.cells@[idx as int])));
                    assert(text@ =~= grid_text(self.cells@, w, row as nat) + row_glyphs(
                        self.cells@,
                        w,
                        row as nat,
                        (column + 1) as nat,
                    ));
                }
                column += 1;
            }
            proof {
                reveal_strlit("\n");
            }
            text.append("\n");
            proof {
                assert(text@ =~= grid_text(self.cells@, w, (row + 1) as nat));
            }
            row += 1;
        }
        text
    }
}

/// A position on the grid has an index below `width * height`.
proof fn lemma_index_in_grid(width: nat, height: nat, row: nat, column: nat)
    requires
        row < height,
        column < width,
    ensures
        index_of(width, row, column) < width * height,
{
    assert(row * width + column < width * height) by (nonlinear_arith)
        requires
            row < height,
            column < width,
    ;
}

} // verus!
