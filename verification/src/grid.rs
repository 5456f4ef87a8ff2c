//! The mathematical model of the occupancy grid: what a city is, which of
//! its cells a coordinate names, and which moves it leaves open.

use crate::coords::{manhattan, GridCoords};
use vstd::arithmetic::div_mod::{
    lemma_fundamental_div_mod, lemma_fundamental_div_mod_converse, lemma_mod_pos_bound,
    lemma_multiply_divide_lt,
};
use vstd::prelude::*;

verus! {

/// Height of a building in floors; a free cell has height 0.
pub type Height = u8;

/// Longest side a city may have: on such a grid, and on no longer one, every
/// cell has coordinates that fit a [`GridCoords`].
pub const MAX_SIDE: usize = 256;

/// Number of cells of the largest city.
pub const MAX_CELLS: usize = 65536;

/// Cost of one move between neighbouring cells.
pub const STEP_COST: u32 = 1;

/// Why a number of heights cannot make a city of a given side.
#[derive(Clone, Copy, Debug, PartialEq, Eq, Structural)]
pub enum CityError {
    /// There are more than [`MAX_CELLS`] heights.
    TooLarge,
    /// The number of heights is no square number.
    NotSquare,
    /// The heights form a square, but not one of the side asked for.
    SideMismatch,
}

/// Mathematical content of a [`City`].
pub struct CityView {
    /// Cells per row, and rows.
    pub side: nat,
    /// Height of every cell, row by row.
    pub heights: Seq<Height>,
    /// Counts the writes to the grid, wrapping at the end of `u64`.
    pub generation: u64,
}

/// `n` is the square of a natural number.
pub open spec fn is_square(n: nat) -> bool {
    exists|s: nat| #[trigger] (s * s) == n
}

/// The reason for which `cells` heights are no city of side `side`, if there
/// is one.
pub open spec fn construction_error(cells: nat, side: nat) -> Option<CityError> {
    if cells > MAX_CELLS {
        Some(CityError::TooLarge)
    } else if !is_square(cells) {
        Some(CityError::NotSquare)
    } else if side * side != cells {
        Some(CityError::SideMismatch)
    } else {
        None
    }
}

/// The generation that follows `g`.
pub open spec fn next_generation(g: u64) -> u64 {
    if g == u64::MAX {
        0
    } else {
        (g + 1) as u64
    }
}

impl CityView {
    /// The heights fill a square of side `side`, and the square is small
    /// enough for its cells to have coordinates.
    pub open spec fn wf(self) -> bool {
        &&& self.side <= MAX_SIDE
        &&& self.heights.len() == self.side * self.side
    }

    /// Offset between a coordinate and its row or column number.
    pub open spec fn half(self) -> int {
        self.side as int / 2
    }

    /// The point `(x, y)` lies on the grid.
    pub open spec fn on_grid(self, x: int, y: int) -> bool {
        &&& 0 <= x + self.half() < self.side
        &&& 0 <= y + self.half() < self.side
    }

    /// Linear index of the cell at `(x, y)`.
    pub open spec fn cell(self, x: int, y: int) -> int {
        (y + self.half()) * self.side + (x + self.half())
    }

    /// `idx` is the linear index of a cell.
    pub open spec fn is_cell(self, idx: int) -> bool {
        0 <= idx < self.heights.len()
    }

    /// `x` coordinate of the cell with index `idx`.
    pub open spec fn column(self, idx: int) -> int {
        idx % (self.side as int) - self.half()
    }

    /// `y` coordinate of the cell with index `idx`.
    pub open spec fn row(self, idx: int) -> int {
        idx / (self.side as int) - self.half()
    }

    /// Index of the cell at `coords`; `None` off the grid.
    pub open spec fn index_of(self, coords: GridCoords) -> Option<usize> {
        if self.on_grid(coords.x as int, coords.y as int) {
            Some(self.cell(coords.x as int, coords.y as int) as usize)
        } else {
            None
        }
    }

    /// Coordinates of the cell with index `idx`.
    pub open spec fn coords_of(self, idx: int) -> GridCoords {
        GridCoords { x: self.column(idx) as i8, y: self.row(idx) as i8 }
    }

    /// Height of the building at `coords`; `None` off the grid and on a free
    /// cell.
    pub open spec fn height_at(self, coords: GridCoords) -> Option<Height> {
        match self.index_of(coords) {
            Some(idx) => if self.heights[idx as int] > 0 {
                Some(self.heights[idx as int])
            } else {
                None
            },
            None => None,
        }
    }

    /// The city after a write of `height` at `coords`: unchanged off the
    /// grid; on it the cell holds the new height (0 for `None`) and the
    /// generation has moved on.
    pub open spec fn with_height(self, coords: GridCoords, height: Option<Height>) -> CityView {
        match self.index_of(coords) {
            Some(idx) => CityView {
                side: self.side,
                heights: self.heights.update(
                    idx as int,
                    match height {
                        Some(h) => h,
                        None => 0,
                    },
                ),
                generation: next_generation(self.generation),
            },
            None => self,
        }
    }

    /// The point `(x, y)` is a free cell.
    pub open spec fn free(self, x: int, y: int) -> bool {
        self.on_grid(x, y) && self.heights[self.cell(x, y)] == 0
    }

    /// The move onto `(x, y)`, where that is a free cell.
    pub open spec fn exit_toward(self, x: int, y: int) -> Seq<(usize, u32)> {
        if self.free(x, y) {
            seq![(self.cell(x, y) as usize, STEP_COST)]
        } else {
            Seq::empty()
        }
    }

    /// The moves open from the cell `idx`: its free neighbours above, below,
    /// left and right, in that order, each at [`STEP_COST`]. No diagonal is
    /// among them, and nothing leads away from an index that is no cell.
    pub open spec fn exits(self, idx: int) -> Seq<(usize, u32)> {
        if self.is_cell(idx) {
            let x = self.column(idx);
            let y = self.row(idx);
            self.exit_toward(x, y + 1) + self.exit_toward(x, y - 1) + self.exit_toward(x - 1, y)
                + self.exit_toward(x + 1, y)
        } else {
            Seq::empty()
        }
    }

    /// Manhattan distance between the cells `a` and `b`.
    pub open spec fn distance(self, a: int, b: int) -> nat {
        manhattan(self.column(a), self.row(a), self.column(b), self.row(b))
    }

    /// The buildings among the first `n` cells, in index order.
    pub open spec fn buildings_below(self, n: int) -> Seq<(GridCoords, Height)>
        decreases n,
    {
        if n <= 0 {
            Seq::empty()
        } else if self.heights[n - 1] > 0 {
            self.buildings_below(n - 1).push((self.coords_of(n - 1), self.heights[n - 1]))
        } else {
            self.buildings_below(n - 1)
        }
    }

    /// Every building with its coordinates, in index order.
    pub open spec fn buildings(self) -> Seq<(GridCoords, Height)> {
        self.buildings_below(self.heights.len() as int)
    }

    /// One move leads from the cell `from` onto the cell `to`: `to` is free
    /// and lies directly above, below, left or right of `from`.
    #[verifier::opaque]
    pub open spec fn steps_to(self, from: int, to: int) -> bool {
        &&& self.is_cell(from)
        &&& self.is_cell(to)
        &&& self.heights[to] == 0
        &&& self.distance(from, to) == 1
    }

    /// The cell that a walker stands on before taking step `i` of `route`,
    /// having set out from `start`.
    pub open spec fn stand(start: int, route: Seq<usize>, i: int) -> int {
        if i == 0 {
            start
        } else {
            route[i - 1] as int
        }
    }

    /// `route` leads from the cell `start` to the cell `goal`: it names the
    /// cells to step onto in turn, `start` not among them as the first and
    /// `goal` the last, and every step is one move. An empty sequence is no
    /// route.
    pub open spec fn is_route(self, start: int, goal: int, route: Seq<usize>) -> bool {
        &&& route.len() > 0
        &&& route.last() == goal
        &&& forall|i: int|
            0 <= i < route.len() ==> self.steps_to(
                Self::stand(start, route, i),
                #[trigger] route[i] as int,
            )
    }

    /// Row and column numbers of a cell lie within the side.
    pub proof fn lemma_cell_position(self, idx: int)
        requires
            self.wf(),
            self.is_cell(idx),
        ensures
            0 <= idx % (self.side as int) < self.side,
            0 <= idx / (self.side as int) < self.side,
            idx == (idx / (self.side as int)) * self.side + idx % (self.side as int),
            self.on_grid(self.column(idx), self.row(idx)),
            self.cell(self.column(idx), self.row(idx)) == idx,
            -128 <= self.column(idx) <= 127,
            -128 <= self.row(idx) <= 127,
    {
        let side = self.side as int;
        assert(side > 0) by {
            if side == 0 {
                assert(self.side * self.side == 0);
            }
        }
        lemma_mod_pos_bound(idx, side);
        lemma_multiply_divide_lt(idx, side, side);
        lemma_fundamental_div_mod(idx, side);
        assert(0 <= idx / side) by {
            vstd::arithmetic::div_mod::lemma_div_pos_is_pos(idx, side);
        }
        assert(side * (idx / side) == (idx / side) * side) by (nonlinear_arith);
    }

    /// A point of the grid indexes a cell, and the cell's row and column lead
    /// back to the point.
    pub proof fn lemma_point_index(self, x: int, y: int)
        requires
            self.wf(),
            self.on_grid(x, y),
        ensures
            self.is_cell(self.cell(x, y)),
            self.cell(x, y) < MAX_CELLS,
            self.column(self.cell(x, y)) == x,
            self.row(self.cell(x, y)) == y,
    {
        let side = self.side as int;
        let sx = x + self.half();
        let sy = y + self.half();
        assert(0 <= sy * side + sx < side * side) by (nonlinear_arith)
            requires
                0 <= sx < side,
                0 <= sy < side,
        ;
        assert(side * side <= 65536) by (nonlinear_arith)
            requires
                0 <= side <= 256,
        ;
        lemma_fundamental_div_mod_converse(sy * side + sx, side, sy, sx);
    }
}

} // verus!
