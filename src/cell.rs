use vstd::prelude::*;

verus! {

/// The state of one grid position.
#[derive(Clone, Copy, Debug, PartialEq, Eq, Structural)]
pub enum Cell {
    Dead,
    Alive,
}

/// The numeric code of a cell state: 0 for `Dead`, 1 for `Alive`.
pub open spec fn code_of(c: Cell) -> nat {
    match c {
        Cell::Dead => 0,
        Cell::Alive => 1,
    }
}

impl Cell {
    /// The cell's stable one-byte code, as a renderer reading the grid as
    /// bytes sees it.
    pub fn code(self) -> (r: u8)
        ensures
            r as nat == code_of(self),
    {
        match self {
            Cell::Dead => 0,
            Cell::Alive => 1,
        }
    }

}

} // verus!
