//! The occupancy grid: a square of cells centred on the origin, each either
//! free or holding a building of some height.

use crate::coords::GridCoords;
use crate::grid::{
    construction_error, is_square, CityError, CityView, Height, MAX_CELLS, MAX_SIDE, STEP_COST,
};
use vstd::prelude::*;

verus! {

/// A city: the heights of its cells, row by row, and the count of the writes
/// that it has seen.
#[derive(Debug)]
pub struct City {
    heights: Vec<Height>,
    side: usize,
    generation: u64,
}

impl View for City {
    type V = CityView;

    closed spec fn view(&self) -> CityView {
        CityView { side: self.side as nat, heights: self.heights@, generation: self.generation }
    }
}

impl Clone for City {
    fn clone(&self) -> (copy: City)
        ensures
            copy@ == self@,
    {
        proof {
            use_type_invariant(self);
        }
        let heights: Vec<Height> = self.heights.clone();
        assert(heights@ =~= self.heights@);
        City { heights, side: self.side, generation: self.generation }
    }
}

/// The largest `r` with `r * r <= n`.
fn floor_sqrt(n: usize) -> (r: usize)
    requires
        n <= MAX_CELLS,
    ensures
        r * r <= n < (r + 1) * (r + 1),
        r <= MAX_SIDE,
{
    let mut r: usize = 0;
    let mut above: usize = 1;
    while above <= n
        invariant
            above == (r + 1) * (r + 1),
            r * r <= n,
            n <= MAX_CELLS,
            r <= MAX_SIDE,
        decreases MAX_CELLS + 1 - r,
    {
        assert((r + 1) * (r + 1) <= 65536 ==> r + 1 <= 256) by (nonlinear_arith);
        assert((r + 2) * (r + 2) == (r + 1) * (r + 1) + 2 * (r + 1) + 1) by (nonlinear_arith);
        r = r + 1;
        above = above + 2 * r + 1;
    }
    r
}

/// Squares grow with their roots: a number strictly between two consecutive
/// squares is no square, and a square has one root only.
proof fn lemma_square_roots(n: nat, r: nat)
    requires
        r * r <= n < (r + 1) * (r + 1),
    ensures
        is_square(n) <==> r * r == n,
        forall|s: nat| #[trigger] (s * s) == n ==> s == r,
{
    assert forall|s: nat| #[trigger] (s * s) == n implies s == r by {
        if s < r {
            assert(s * s < r * r) by (nonlinear_arith)
                requires
                    0 <= s < r,
            ;
        } else if s > r {
            assert(s * s >= (r + 1) * (r + 1)) by (nonlinear_arith)
                requires
                    s >= r + 1,
                    r >= 0,
            ;
        }
    }
}

impl City {
    /// The grid is a square of at most [`MAX_SIDE`] cells a side.
    #[verifier::type_invariant]
    pub open spec fn well_formed(&self) -> bool {
        self@.wf()
    }

    /// Says why `cells` heights cannot make a city of side `side`: they are
    /// too many, or they form no square, or the square that they form has
    /// another side. `None` means that they can.
    pub fn refusal(cells: usize, side: usize) -> (why: Option<CityError>)
        ensures
            why == construction_error(cells as nat, side as nat),
    {
        if cells > MAX_CELLS {
            return Some(CityError::TooLarge);
        }
        let root: usize = floor_sqrt(cells);
        proof {
            lemma_square_roots(cells as nat, root as nat);
        }
        assert(root * root <= 65536) by (nonlinear_arith)
            requires
                root <= 256,
        ;
        if root * root != cells {
            Some(CityError::NotSquare)
        } else if root != side {
            Some(CityError::SideMismatch)
        } else {
            None
        }
    }

    /// Makes a city of side `side` from the heights of its cells, given row
    /// by row, the row of the lowest `y` first. Heights that are no city of
    /// that side are a fault of the configuration from which nothing
    /// recovers, so none is made of them: [`refusal`](Self::refusal) tells
    /// beforehand.
    pub fn new(heights: Vec<Height>, side: usize) -> (city: City)
        requires
            construction_error(heights@.len(), side as nat) is None,
        ensures
            city@.wf(),
            city@.side == side,
            city@.heights == heights@,
            city@.generation == 0,
    {
        assert(side <= 256) by (nonlinear_arith)
            requires
                side * side <= 65536,
        ;
        City { heights, side, generation: 0 }
    }

    /// Cells per row, and rows.
    pub fn side(&self) -> (side: usize)
        ensures
            side == self@.side,
            self@.wf(),
    {
        proof {
            use_type_invariant(self);
        }
        self.side
    }

    /// Number of cells.
    pub fn cell_count(&self) -> (cells: usize)
        ensures
            cells == self@.heights.len(),
            self@.wf(),
    {
        proof {
            use_type_invariant(self);
        }
        self.heights.len()
    }

    /// Width and depth of the grid, in cells.
    pub fn dimensions(&self) -> (dims: (usize, usize))
        ensures
            dims.0 == self@.side,
            dims.1 == self@.side,
    {
        (self.side, self.side)
    }

    /// Count of the writes to the grid so far, wrapping at the end of `u64`.
    pub fn generation(&self) -> (generation: u64)
        ensures
            generation == self@.generation,
    {
        self.generation
    }

    /// The least and the greatest coordinate of a cell, the same along both
    /// axes; `None` for a city without cells.
    pub fn coordinate_range(&self) -> (range: Option<(i8, i8)>)
        ensures
            match range {
                Some((low, high)) => {
                    &&& self@.side > 0
                    &&& low == -self@.half()
                    &&& high == self@.side - 1 - self@.half()
                    &&& low <= high
                },
                None => self@.side == 0,
            },
    {
        proof {
            use_type_invariant(self);
        }
        if self.side == 0 {
            None
        } else {
            let side: i32 = self.side as i32;
            let half: i32 = side / 2;
            Some(((-half) as i8, (side - 1 - half) as i8))
        }
    }

    /// Index of the cell at `coords`, or `None` where `coords` lies off the
    /// grid.
    pub fn coords_to_index(&self, coords: GridCoords) -> (idx: Option<usize>)
        ensures
            idx == self@.index_of(coords),
            idx matches Some(i) ==> self@.is_cell(i as int),
    {
        proof {
            use_type_invariant(self);
        }
        let side: i32 = self.side as i32;
        let half: i32 = side / 2;
        let shifted_x: i32 = coords.x as i32 + half;
        let shifted_y: i32 = coords.y as i32 + half;
        if shifted_x < 0 || shifted_x >= side || shifted_y < 0 || shifted_y >= side {
            None
        } else {
            proof {
                self@.lemma_point_index(coords.x as int, coords.y as int);
            }
            assert(shifted_y * side == (coords.y + self@.half()) * self@.side);
            Some((shifted_y * side + shifted_x) as usize)
        }
    }

    /// Coordinates of the cell with index `idx`.
    pub fn index_to_coords(&self, idx: usize) -> (coords: GridCoords)
        requires
            self@.is_cell(idx as int),
        ensures
            coords == self@.coords_of(idx as int),
            self@.index_of(coords) == Some(idx),
    {
        proof {
            use_type_invariant(self);
            self@.lemma_cell_position(idx as int);
        }
        let half: i32 = (self.side / 2) as i32;
        let x: i32 = (idx % self.side) as i32;
        let y: i32 = (idx / self.side) as i32;
        GridCoords::new((x - half) as i8, (y - half) as i8)
    }

    /// Height of the building at `coords`. `None` means that no building
    /// stands there: the cell is free, or `coords` lies off the grid.
    pub fn height_at_coords(&self, coords: GridCoords) -> (height: Option<Height>)
        ensures
            height == self@.height_at(coords),
    {
        match self.coords_to_index(coords) {
            Some(idx) => {
                let h: Height = self.heights[idx];
                if h > 0 {
                    Some(h)
                } else {
                    None
                }
            },
            None => None,
        }
    }

    /// Writes the height of the cell at `coords`; `None` clears the cell, as
    /// a height of 0 does. A write on the grid moves the generation on, also
    /// where it writes the height that the cell had. Off the grid nothing
    /// happens.
    pub fn set_height_at_coords(&mut self, coords: GridCoords, height: Option<Height>)
        ensures
            final(self)@ == old(self)@.with_height(coords, height),
            final(self)@.wf(),
    {
        proof {
            use_type_invariant(&*self);
        }
        let Some(idx) = self.coords_to_index(coords) else {
            return;
        };
        let h: Height = match height {
            Some(h) => h,
            None => 0,
        };
        self.heights[idx] = h;
        self.generation = if self.generation == u64::MAX {
            0
        } else {
            self.generation + 1
        };
    }

    /// Index of the cell at `coords` where a walker may step onto it: where
    /// it lies on the grid and is free.
    pub fn valid_exit(&self, coords: GridCoords) -> (idx: Option<usize>)
        ensures
            idx == (if self@.free(coords.x as int, coords.y as int) {
                self@.index_of(coords)
            } else {
                None
            }),
            self@.exit_toward(coords.x as int, coords.y as int) == match idx {
                Some(i) => seq![(i, STEP_COST)],
                None => Seq::empty(),
            },
    {
        proof {
            use_type_invariant(self);
            if self@.on_grid(coords.x as int, coords.y as int) {
                self@.lemma_point_index(coords.x as int, coords.y as int);
            }
        }
        match self.height_at_coords(coords) {
            None => self.coords_to_index(coords),
            Some(_) => None,
        }
    }

    /// The moves open to a walker on the cell `idx`, each with its cost: the
    /// free neighbours above, below, left and right, in that order. An index
    /// that is no cell has none.
    pub fn get_available_exits(&self, idx: usize) -> (exits: Vec<(usize, u32)>)
        ensures
            exits@ == self@.exits(idx as int),
    {
        proof {
            use_type_invariant(self);
        }
        let mut exits: Vec<(usize, u32)> = Vec::new();
        if idx >= self.heights.len() {
            return exits;
        }
        let coords: GridCoords = self.index_to_coords(idx);
        proof {
            self@.lemma_cell_position(idx as int);
        }
        let ghost x: int = coords.x as int;
        let ghost y: int = coords.y as int;
        if coords.y < i8::MAX {
            if let Some(next) = self.valid_exit(coords.up()) {
                exits.push((next, STEP_COST));
            }
        }
        assert(exits@ =~= self@.exit_toward(x, y + 1));
        if coords.y > i8::MIN {
            if let Some(next) = self.valid_exit(coords.down()) {
                exits.push((next, STEP_COST));
            }
        }
        assert(exits@ =~= self@.exit_toward(x, y + 1) + self@.exit_toward(x, y - 1));
        if coords.x > i8::MIN {
            if let Some(next) = self.valid_exit(coords.left()) {
                exits.push((next, STEP_COST));
            }
        }
        assert(exits@ =~= self@.exit_toward(x, y + 1) + self@.exit_toward(x, y - 1)
            + self@.exit_toward(x - 1, y));
        if coords.x < i8::MAX {
            if let Some(next) = self.valid_exit(coords.right()) {
                exits.push((next, STEP_COST));
            }
        }
        assert(exits@ =~= self@.exit_toward(x, y + 1) + self@.exit_toward(x, y - 1)
            + self@.exit_toward(x - 1, y) + self@.exit_toward(x + 1, y));
        exits
    }

    /// Estimate of the cost of the way from the cell `idx1` to the cell
    /// `idx2`: their Manhattan distance.
    pub fn get_pathing_distance(&self, idx1: usize, idx2: usize) -> (distance: u16)
        requires
            self@.is_cell(idx1 as int),
            self@.is_cell(idx2 as int),
        ensures
            distance == self@.distance(idx1 as int, idx2 as int),
    {
        proof {
            use_type_invariant(self);
            self@.lemma_cell_position(idx1 as int);
            self@.lemma_cell_position(idx2 as int);
        }
        let coords1: GridCoords = self.index_to_coords(idx1);
        let coords2: GridCoords = self.index_to_coords(idx2);
        coords1.manhattan_dist(coords2)
    }

    /// Every building of the city with its coordinates, in index order.
    pub fn buildings(&self) -> (found: Vec<(GridCoords, Height)>)
        ensures
            found@ == self@.buildings(),
    {
        let mut found: Vec<(GridCoords, Height)> = Vec::new();
        let mut idx: usize = 0;
        while idx < self.heights.len()
            invariant
                idx <= self.heights.len(),
                found@ == self@.buildings_below(idx as int),
            decreases self.heights.len() - idx,
        {
            let h: Height = self.heights[idx];
            if h > 0 {
                found.push((self.index_to_coords(idx), h));
            }
            idx = idx + 1;
        }
        found
    }

    /// Whether one move leads from the cell `from` onto the cell `to`.
    pub fn is_step(&self, from: usize, to: usize) -> (ok: bool)
        ensures
            ok == self@.steps_to(from as int, to as int),
    {
        reveal(CityView::steps_to);
        if from >= self.heights.len() || to >= self.heights.len() {
            return false;
        }
        if self.heights[to] != 0 {
            return false;
        }
        self.get_pathing_distance(from, to) == 1
    }

    /// Whether `route` leads from the cell `start` to the cell `goal` over
    /// free cells, one move at a time.
    pub fn is_route(&self, start: usize, goal: usize, route: &Vec<usize>) -> (ok: bool)
        ensures
            ok == self@.is_route(start as int, goal as int, route@),
    {
        let len: usize = route.len();
        if len == 0 || route[len - 1] != goal {
            return false;
        }
        let mut at: usize = start;
        let mut i: usize = 0;
        while i < len
            invariant
                len == route.len(),
                i <= len,
                at as int == CityView::stand(start as int, route@, i as int),
                forall|j: int|
                    0 <= j < i ==> self@.steps_to(
                        CityView::stand(start as int, route@, j),
                        #[trigger] route@[j] as int,
                    ),
            decreases len - i,
        {
            let next: usize = route[i];
            if !self.is_step(at, next) {
                return false;
            }
            at = next;
            i = i + 1;
        }
        true
    }
}

} // verus!
