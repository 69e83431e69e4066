//! The fixed 5x5 bitmap that the display renders.

use vstd::prelude::*;

verus! {

/// Side length of the square LED grid.
pub open spec fn spec_grid_side() -> int {
    5
}

/// Number of cells in the grid.
pub open spec fn spec_grid_cells() -> int {
    25
}

/// A 5x5 grid of binary cells, stored row-major: cell (row, col) is
/// `bits[row * 5 + col]`, and `true` means lit.  Immutable once built.
pub struct Bitmap {
    bits: [bool; 25],
}

impl Bitmap {
    /// The cells, row-major.
    pub closed spec fn cells(self) -> Seq<bool> {
        self.bits@
    }

    /// Whether cell (row, col) is lit.
    pub open spec fn spec_lit(self, row: int, col: int) -> bool {
        self.cells()[row * spec_grid_side() + col]
    }

    /// Every bitmap holds exactly the 25 grid cells.
    pub proof fn lemma_cell_count(self)
        ensures
            self.cells().len() == spec_grid_cells(),
    {
    }

    /// Builds a bitmap from its 25 cells, row-major.
    pub fn new(bits: [bool; 25]) -> (r: Bitmap)
        ensures
            r.cells() == bits@,
    {
        Bitmap { bits }
    }

    /// Reads cell (row, col).
    pub fn lit(&self, row: usize, col: usize) -> (r: bool)
        requires
            row < 5,
            col < 5,
        ensures
            r == self.spec_lit(row as int, col as int),
    {
        self.bits[row * 5 + col]
    }
}

/// The compiled-in heart picture, row by row:
/// `.X.X. / X.X.X / X...X / .X.X. / ..X..`
pub open spec fn heart_cells() -> Seq<bool> {
    seq![
        false, true, false, true, false,
        true, false, true, false, true,
        true, false, false, false, true,
        false, true, false, true, false,
        false, false, true, false, false,
    ]
}

/// The heart bitmap as the display receives it.
pub fn heart() -> (r: Bitmap)
    ensures
        r.cells() == heart_cells(),
{
    let bits: [bool; 25] = [
        false, true, false, true, false,
        true, false, true, false, true,
        true, false, false, false, true,
        false, true, false, true, false,
        false, false, true, false, false,
    ];
    let r = Bitmap::new(bits);
    proof {
        assert(r.cells() =~= heart_cells());
    }
    r
}

} // verus!
