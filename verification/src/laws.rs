//! What holds of every city and every pedestrian, proved from the model.

use crate::coords::GridCoords;
use crate::grid::{next_generation, CityView, Height, STEP_COST};
use crate::person::{Heading, PersonView};
use vstd::prelude::*;

verus! {

impl CityView {
    /// From an index to coordinates and back: the coordinates of a cell lie
    /// on the grid and index that cell.
    pub proof fn lemma_index_round_trip(self, idx: usize)
        requires
            self.wf(),
            self.is_cell(idx as int),
        ensures
            self.index_of(self.coords_of(idx as int)) == Some(idx),
    {
        self.lemma_cell_position(idx as int);
    }

    /// From coordinates to an index and back: the cell that coordinates on
    /// the grid index has those coordinates.
    pub proof fn lemma_coords_round_trip(self, coords: GridCoords)
        requires
            self.wf(),
            self.on_grid(coords.x as int, coords.y as int),
        ensures
            self.index_of(coords) matches Some(idx) && self.is_cell(idx as int) && self.coords_of(
                idx as int,
            ) == coords,
    {
        self.lemma_point_index(coords.x as int, coords.y as int);
    }

    /// Off the grid there is no cell to read and none to write: a lookup
    /// finds nothing, and a write leaves the city as it was, heights and
    /// generation alike.
    pub proof fn lemma_off_grid(self, coords: GridCoords, height: Option<Height>)
        requires
            !self.on_grid(coords.x as int, coords.y as int),
        ensures
            self.index_of(coords) is None,
            self.height_at(coords) is None,
            self.with_height(coords, height) == self,
    {
    }

    /// A write on the grid keeps the city well formed, is read back at the
    /// cell written, and leaves every other cell as it was.
    pub proof fn lemma_write_then_read(self, coords: GridCoords, height: Option<Height>, other: GridCoords)
        requires
            self.wf(),
        ensures
            self.with_height(coords, height).wf(),
            self.with_height(coords, height).side == self.side,
            self.on_grid(coords.x as int, coords.y as int) ==> self.with_height(
                coords,
                height,
            ).height_at(coords) == match height {
                Some(h) => if h > 0 {
                    Some(h)
                } else {
                    None
                },
                None => None,
            },
            other != coords ==> self.with_height(coords, height).height_at(other) == self.height_at(
                other,
            ),
    {
        if self.on_grid(coords.x as int, coords.y as int) {
            self.lemma_point_index(coords.x as int, coords.y as int);
            if self.on_grid(other.x as int, other.y as int) {
                self.lemma_point_index(other.x as int, other.y as int);
            }
        }
    }

    /// Writing the same height to the same place twice leaves the heights
    /// that writing it once leaves.
    pub proof fn lemma_write_idempotent(self, coords: GridCoords, height: Option<Height>)
        requires
            self.wf(),
        ensures
            self.with_height(coords, height).with_height(coords, height).heights == self.with_height(
                coords,
                height,
            ).heights,
            self.with_height(coords, height).with_height(coords, height).side == self.side,
    {
        let once = self.with_height(coords, height);
        if self.on_grid(coords.x as int, coords.y as int) {
            self.lemma_point_index(coords.x as int, coords.y as int);
            assert(once.with_height(coords, height).heights =~= once.heights);
        }
    }

    /// A generation is never its own successor, nor the successor of its
    /// successor: one write, and two, both show.
    pub proof fn lemma_generation_moves(g: u64)
        ensures
            next_generation(g) != g,
            next_generation(next_generation(g)) != g,
    {
    }

    /// The exits of a cell are the moves from it: `to` is listed among the
    /// exits of `from`, at [`STEP_COST`], exactly where `to` is a free cell
    /// directly above, below, left or right of `from`.
    pub proof fn lemma_exits_are_steps(self, from: int, to: usize)
        requires
            self.wf(),
        ensures
            self.exits(from).contains((to, STEP_COST)) <==> self.steps_to(from, to as int),
            self.exits(from).len() <= 4,
    {
        reveal(CityView::steps_to);
        if self.is_cell(from) {
            self.lemma_cell_position(from);
            let x = self.column(from);
            let y = self.row(from);
            let up = self.exit_toward(x, y + 1);
            let down = self.exit_toward(x, y - 1);
            let left = self.exit_toward(x - 1, y);
            let right = self.exit_toward(x + 1, y);
            let all = self.exits(from);
            assert(all == up + down + left + right);
            if self.on_grid(x, y + 1) {
                self.lemma_point_index(x, y + 1);
            }
            if self.on_grid(x, y - 1) {
                self.lemma_point_index(x, y - 1);
            }
            if self.on_grid(x - 1, y) {
                self.lemma_point_index(x - 1, y);
            }
            if self.on_grid(x + 1, y) {
                self.lemma_point_index(x + 1, y);
            }
            if all.contains((to, STEP_COST)) {
                let i = choose|i: int| 0 <= i < all.len() && all[i] == (to, STEP_COST);
                assert(all[i] == (to, STEP_COST));
                assert(self.steps_to(from, to as int));
            }
            if self.steps_to(from, to as int) {
                self.lemma_cell_position(to as int);
                let tx = self.column(to as int);
                let ty = self.row(to as int);
                assert(self.free(tx, ty));
                if tx == x && ty == y + 1 {
                    assert(all[0] == (to, STEP_COST));
                } else if tx == x && ty == y - 1 {
                    assert(all[up.len() as int] == (to, STEP_COST));
                } else if tx == x - 1 && ty == y {
                    assert(all[(up.len() + down.len()) as int] == (to, STEP_COST));
                } else {
                    assert(tx == x + 1 && ty == y);
                    assert(all[(up.len() + down.len() + left.len()) as int] == (to, STEP_COST));
                }
            }
        }
    }

    /// No move ends where it began: a cell is never among its own exits.
    pub proof fn lemma_no_step_in_place(self, idx: int)
        ensures
            !self.steps_to(idx, idx),
    {
        reveal(CityView::steps_to);
    }

    /// The Manhattan distance obeys the triangle inequality.
    pub proof fn lemma_distance_triangle(self, a: int, b: int, c: int)
        ensures
            self.distance(a, c) <= self.distance(a, b) + self.distance(b, c),
            self.distance(a, b) == self.distance(b, a),
            self.distance(a, a) == 0,
    {
    }

    /// The distance estimate is consistent with the cost of a move: one move
    /// brings a walker at most one [`STEP_COST`] nearer to any cell.
    pub proof fn lemma_estimate_consistent(self, from: int, to: int, goal: int)
        requires
            self.steps_to(from, to),
        ensures
            self.distance(from, goal) <= STEP_COST + self.distance(to, goal),
    {
        reveal(CityView::steps_to);
        self.lemma_distance_triangle(from, to, goal);
    }

    /// Every cell of a route is a free cell of the city.
    pub proof fn lemma_route_over_free_cells(self, start: int, goal: int, route: Seq<usize>, i: int)
        requires
            self.is_route(start, goal, route),
            0 <= i < route.len(),
        ensures
            self.is_cell(route[i] as int),
            self.heights[route[i] as int] == 0,
            self.is_cell(goal),
            self.is_cell(start),
    {
        reveal(CityView::steps_to);
        assert(self.steps_to(Self::stand(start, route, i), route[i] as int));
        assert(self.steps_to(Self::stand(start, route, 0), route[0] as int));
        assert(self.steps_to(
            Self::stand(start, route, route.len() - 1),
            route[route.len() - 1] as int,
        ));
    }

    /// After `n` steps of a route a walker is at most `n` moves away from
    /// where it set out.
    proof fn lemma_route_reach(self, start: int, goal: int, route: Seq<usize>, n: int)
        requires
            self.is_route(start, goal, route),
            0 <= n <= route.len(),
        ensures
            self.distance(start, Self::stand(start, route, n)) <= n,
        decreases n,
    {
        if n > 0 {
            self.lemma_route_reach(start, goal, route, n - 1);
            let before = Self::stand(start, route, n - 1);
            let after = route[n - 1] as int;
            assert(self.steps_to(before, after));
            assert(self.distance(before, after) == 1) by {
                reveal(CityView::steps_to);
            }
            self.lemma_distance_triangle(start, before, after);
        }
    }

    /// The distance estimate never overrates: no route between two cells has
    /// fewer steps than the cells' Manhattan distance.
    pub proof fn lemma_route_no_shorter(self, start: int, goal: int, route: Seq<usize>)
        requires
            self.is_route(start, goal, route),
        ensures
            self.distance(start, goal) <= route.len(),
    {
        self.lemma_route_reach(start, goal, route, route.len() as int);
    }
}

impl CityView {
    /// No building stands in the city.
    pub open spec fn all_free(self) -> bool {
        forall|idx: int| self.is_cell(idx) ==> #[trigger] self.heights[idx] == 0
    }

    /// Every cell of the row `y` holds a building.
    pub open spec fn walled_at(self, y: int) -> bool {
        forall|idx: int| self.is_cell(idx) && #[trigger] self.row(idx) == y ==> self.heights[idx] > 0
    }

    /// The cell next to `from` on the way to `goal`: one step along `x`
    /// while the columns differ, then one step along `y`.
    pub open spec fn toward(self, from: int, goal: int) -> int {
        let x = self.column(from);
        let y = self.row(from);
        if x < self.column(goal) {
            self.cell(x + 1, y)
        } else if x > self.column(goal) {
            self.cell(x - 1, y)
        } else if y < self.row(goal) {
            self.cell(x, y + 1)
        } else {
            self.cell(x, y - 1)
        }
    }

    /// The route that first walks along `x` and then along `y`.
    pub open spec fn direct_route(self, start: int, goal: int) -> Seq<usize>
        decreases self.distance(start, goal),
    {
        if self.wf() && self.is_cell(start) && self.is_cell(goal) && start != goal {
            let next = self.toward(start, goal);
            if next == goal {
                seq![next as usize]
            } else if self.distance(next, goal) < self.distance(start, goal) {
                seq![next as usize] + self.direct_route(next, goal)
            } else {
                Seq::empty()
            }
        } else {
            Seq::empty()
        }
    }

    /// The next cell towards a goal is a neighbour on the grid, and nearer
    /// to the goal by one.
    proof fn lemma_toward(self, from: int, goal: int)
        requires
            self.wf(),
            self.is_cell(from),
            self.is_cell(goal),
            from != goal,
        ensures
            self.is_cell(self.toward(from, goal)),
            self.toward(from, goal) < usize::MAX,
            self.distance(from, self.toward(from, goal)) == 1,
            self.distance(self.toward(from, goal), goal) + 1 == self.distance(from, goal),
    {
        self.lemma_cell_position(from);
        self.lemma_cell_position(goal);
        let x = self.column(from);
        let y = self.row(from);
        if x < self.column(goal) {
            self.lemma_point_index(x + 1, y);
        } else if x > self.column(goal) {
            self.lemma_point_index(x - 1, y);
        } else if y < self.row(goal) {
            self.lemma_point_index(x, y + 1);
        } else {
            assert(y > self.row(goal));
            self.lemma_point_index(x, y - 1);
        }
    }

    /// In a city without buildings the direct route is a route, and it has
    /// as many steps as the Manhattan distance counts.
    pub proof fn lemma_direct_route(self, start: int, goal: int)
        requires
            self.wf(),
            self.all_free(),
            self.is_cell(start),
            self.is_cell(goal),
            start != goal,
        ensures
            self.is_route(start, goal, self.direct_route(start, goal)),
            self.direct_route(start, goal).len() == self.distance(start, goal),
        decreases self.distance(start, goal),
    {
        let next = self.toward(start, goal);
        self.lemma_toward(start, goal);
        assert(self.steps_to(start, next)) by {
            reveal(CityView::steps_to);
        }
        let route = self.direct_route(start, goal);
        if next == goal {
            assert(route == seq![next as usize]);
            assert forall|i: int| 0 <= i < route.len() implies self.steps_to(
                Self::stand(start, route, i),
                #[trigger] route[i] as int,
            ) by {}
        } else {
            self.lemma_direct_route(next, goal);
            let rest = self.direct_route(next, goal);
            assert(route == seq![next as usize] + rest);
            assert(route.last() == rest.last());
            assert forall|i: int| 0 <= i < route.len() implies self.steps_to(
                Self::stand(start, route, i),
                #[trigger] route[i] as int,
            ) by {
                if i > 0 {
                    assert(route[i] == rest[i - 1]);
                    assert(Self::stand(start, route, i) == Self::stand(next, rest, i - 1));
                    assert(self.steps_to(Self::stand(next, rest, i - 1), rest[i - 1] as int));
                }
            }
        }
    }

    /// In a city without buildings the shortest route between two distinct
    /// cells has exactly as many steps as their Manhattan distance: there is
    /// a route of that length, and no route is shorter.
    pub proof fn lemma_shortest_on_free_grid(self, start: int, goal: int, route: Seq<usize>)
        requires
            self.wf(),
            self.all_free(),
            self.is_cell(start),
            self.is_cell(goal),
            start != goal,
        ensures
            exists|best: Seq<usize>| #[trigger]
                self.is_route(start, goal, best) && best.len() == self.distance(start, goal),
            self.is_route(start, goal, route) ==> route.len() >= self.distance(start, goal),
    {
        self.lemma_direct_route(start, goal);
        if self.is_route(start, goal, route) {
            self.lemma_route_no_shorter(start, goal, route);
        }
    }

    /// `route` is a route from `start` to `goal`, and no route between the
    /// two has fewer steps.
    pub open spec fn is_least_route(self, start: int, goal: int, route: Seq<usize>) -> bool {
        &&& self.is_route(start, goal, route)
        &&& forall|other: Seq<usize>| #[trigger]
            self.is_route(start, goal, other) ==> route.len() <= other.len()
    }

    /// In a city without buildings a route of least length between two
    /// distinct cells has exactly as many steps as their Manhattan distance.
    pub proof fn lemma_least_route_on_free_grid(self, start: int, goal: int, route: Seq<usize>)
        requires
            self.wf(),
            self.all_free(),
            self.is_cell(start),
            self.is_cell(goal),
            start != goal,
            self.is_least_route(start, goal, route),
        ensures
            route.len() == self.distance(start, goal),
    {
        self.lemma_direct_route(start, goal);
        assert(self.is_route(start, goal, self.direct_route(start, goal)));
        self.lemma_route_no_shorter(start, goal, route);
    }

    /// A walker that sets out below a row of buildings stays below it.
    proof fn lemma_kept_below(self, wall: int, start: int, goal: int, route: Seq<usize>, n: int)
        requires
            self.wf(),
            self.walled_at(wall),
            self.is_route(start, goal, route),
            self.row(start) < wall,
            0 <= n <= route.len(),
        ensures
            self.row(Self::stand(start, route, n)) < wall,
        decreases n,
    {
        if n > 0 {
            self.lemma_kept_below(wall, start, goal, route, n - 1);
            let before = Self::stand(start, route, n - 1);
            let after = route[n - 1] as int;
            assert(self.steps_to(before, after));
            reveal(CityView::steps_to);
        }
    }

    /// A walker that sets out above a row of buildings stays above it.
    proof fn lemma_kept_above(self, wall: int, start: int, goal: int, route: Seq<usize>, n: int)
        requires
            self.wf(),
            self.walled_at(wall),
            self.is_route(start, goal, route),
            self.row(start) > wall,
            0 <= n <= route.len(),
        ensures
            self.row(Self::stand(start, route, n)) > wall,
        decreases n,
    {
        if n > 0 {
            self.lemma_kept_above(wall, start, goal, route, n - 1);
            let before = Self::stand(start, route, n - 1);
            let after = route[n - 1] as int;
            assert(self.steps_to(before, after));
            reveal(CityView::steps_to);
        }
    }

    /// A row filled with buildings parts the city: no route leads from a
    /// cell on one side of it to a cell on the other.
    pub proof fn lemma_wall_parts_the_city(self, wall: int, start: int, goal: int, route: Seq<usize>)
        requires
            self.wf(),
            self.walled_at(wall),
            self.row(start) < wall < self.row(goal) || self.row(goal) < wall < self.row(start),
        ensures
            !self.is_route(start, goal, route),
    {
        if self.is_route(start, goal, route) {
            let n = route.len() as int;
            assert(Self::stand(start, route, n) == goal);
            if self.row(start) < wall {
                self.lemma_kept_below(wall, start, goal, route, n);
            } else {
                self.lemma_kept_above(wall, start, goal, route, n);
            }
        }
    }
}

impl PersonView {
    /// A route that was taken in runs over cells of the city and ends on
    /// the destination.
    pub proof fn lemma_accepting_on_course(self, city: CityView, here: GridCoords, steps: Seq<usize>)
        requires
            city.wf(),
        ensures
            self.accepting(city, here, steps).on_course(city),
            self.accepting(city, here, steps).path.len() > 0 ==> self.accepting(
                city,
                here,
                steps,
            ).goal == self.goal,
    {
        let after = self.accepting(city, here, steps);
        if after.path.len() > 0 {
            let (start, end) = self.endpoints(city, here).unwrap();
            assert forall|i: int| 0 <= i < after.path.len() implies city.is_cell(
                #[trigger] after.path[i] as int,
            ) by {
                city.lemma_route_over_free_cells(start as int, end as int, after.path, i);
            }
        }
    }

    /// Every part of a tick keeps a pedestrian on course.
    pub proof fn lemma_tick_on_course(
        self,
        city: CityView,
        here: GridCoords,
        candidate: Option<GridCoords>,
        found: Option<Seq<usize>>,
    )
        requires
            city.wf(),
            self.on_course(city),
        ensures
            self.observing(city).on_course(city),
            self.aiming(here, candidate).on_course(city),
            self.planning(city, here).0.on_course(city),
            self.begun(city, here, candidate).0.on_course(city),
            self.following(city, here).0.on_course(city),
            self.finished(city, here, found).0.on_course(city),
    {
        let walked = self.following(city, here).0;
        if walked.path.len() > 0 {
            assert forall|i: int| 0 <= i < walked.path.len() implies city.is_cell(
                #[trigger] walked.path[i] as int,
            ) by {
                if walked.path.len() < self.path.len() {
                    assert(walked.path[i] == self.path[i + 1]);
                }
            }
        }
        if let Some(steps) = found {
            let taken = self.accepting(city, here, steps);
            self.lemma_accepting_on_course(city, here, steps);
            let moved = taken.following(city, here).0;
            if moved.path.len() > 0 {
                assert forall|i: int| 0 <= i < moved.path.len() implies city.is_cell(
                    #[trigger] moved.path[i] as int,
                ) by {
                    if moved.path.len() < taken.path.len() {
                        assert(moved.path[i] == taken.path[i + 1]);
                    }
                }
            }
        }
    }

    /// A pedestrian on course uses up its route exactly when it arrives:
    /// following a route empties it if and only if one step was left and the
    /// pedestrian stands on its destination.
    pub proof fn lemma_route_ends_at_goal(self, city: CityView, here: GridCoords)
        requires
            city.wf(),
            self.on_course(city),
            self.path.len() > 0,
        ensures
            self.following(city, here).0.path.len() == 0 <==> (self.path.len() == 1 && self.goal
                == Some(here)),
            self.following(city, here).0.goal == self.goal,
    {
        let goal = self.goal.unwrap();
        assert(city.is_cell(self.path[0] as int));
        if self.path.len() == 1 {
            assert(self.path[0] == self.path.last());
            city.lemma_coords_round_trip(goal);
        }
    }

    /// A write on the grid makes every pedestrian that was up to date drop
    /// its route at its next look, whatever was written and whether or not
    /// the route is touched by it. The destination stays, and where the
    /// pedestrian and its destination are on the grid, the first half of the
    /// tick asks for a new search between them before any step is taken.
    pub proof fn lemma_write_forces_replanning(
        self,
        city: CityView,
        coords: GridCoords,
        height: Option<Height>,
        here: GridCoords,
        candidate: Option<GridCoords>,
    )
        requires
            city.wf(),
            city.on_grid(coords.x as int, coords.y as int),
            self.seen == city.generation,
        ensures
            self.observing(city.with_height(coords, height)).path.len() == 0,
            self.observing(city.with_height(coords, height)).goal == self.goal,
            !self.wants_goal(here) ==> {
                let changed = city.with_height(coords, height);
                let (after, request) = self.begun(changed, here, candidate);
                match self.endpoints(changed, here) {
                    Some(ends) => request == Some(ends) && after.goal == self.goal
                        && after.path.len() == 0,
                    None => request is None && after.goal is None,
                }
            },
    {
        CityView::lemma_generation_moves(city.generation);
    }

    /// One look at the city is enough: a second look at the same city
    /// changes nothing. So a write, or the same write made twice, is seen as
    /// a change once, and a pedestrian that looked before the writes holds
    /// the same destination and the same empty route after either.
    pub proof fn lemma_change_seen_once(self, city: CityView, coords: GridCoords, height: Option<Height>)
        requires
            city.wf(),
            self.seen == city.generation,
        ensures
            self.observing(city).observing(city) == self.observing(city),
            self.observing(city) == self,
            ({
                let once = city.with_height(coords, height);
                let twice = once.with_height(coords, height);
                &&& self.observing(once).observing(once) == self.observing(once)
                &&& self.observing(twice).observing(twice) == self.observing(twice)
                &&& self.observing(twice).goal == self.observing(once).goal
                &&& self.observing(twice).path == self.observing(once).path
            }),
    {
        CityView::lemma_generation_moves(city.generation);
        let once = city.with_height(coords, height);
        let twice = once.with_height(coords, height);
        if !city.on_grid(coords.x as int, coords.y as int) {
            assert(once == city);
            assert(twice == city);
        } else {
            assert(self.observing(once).path =~= Seq::<usize>::empty());
            assert(self.observing(twice).path =~= Seq::<usize>::empty());
        }
    }

    /// What a pedestrian is told to head for is the next cell of its route.
    pub proof fn lemma_heads_for_next_step(self, city: CityView, here: GridCoords)
        ensures
            self.following(city, here).1 matches Heading::Toward(target) ==> {
                &&& self.path.len() > 0
                &&& city.is_cell(self.path[0] as int)
                &&& target == city.coords_of(self.path[0] as int)
                &&& target != here
                &&& self.following(city, here).0 == self
            },
    {
    }

    /// The tick of arrival. A pedestrian that stands on its destination
    /// takes the candidate as its new destination in the first half of that
    /// very tick, and drops whatever was left of its route, the last step
    /// too, before any step is struck off. It asks for a search towards the
    /// new destination where that and the pedestrian lie on the grid, and
    /// is left without destination where they do not.
    pub proof fn lemma_arrival_draws_anew(self, city: CityView, here: GridCoords, candidate: GridCoords)
        requires
            self.goal == Some(here),
        ensures
            ({
                let (after, request) = self.begun(city, here, Some(candidate));
                &&& after.path.len() == 0
                &&& after.seen == city.generation
                &&& match (city.index_of(here), city.index_of(candidate)) {
                    (Some(start), Some(end)) => after.goal == Some(candidate) && request == Some(
                        (start, end),
                    ),
                    _ => after.goal is None && request is None,
                }
            }),
    {
    }

    /// What becomes of a search result. A pedestrian that is left with a
    /// path after taking the result in has kept its destination, and the path
    /// is a route of the city from its cell to the destination's. One that is
    /// left without a path has lost its destination. Where the city holds no
    /// route between the two, the destination is lost whatever was reported.
    pub proof fn lemma_accepting_outcome(self, city: CityView, here: GridCoords, steps: Seq<usize>)
        ensures
            ({
                let after = self.accepting(city, here, steps);
                &&& after.seen == self.seen
                &&& after.path.len() == 0 ==> after.goal is None
                &&& after.path.len() > 0 ==> {
                    &&& after.goal == self.goal
                    &&& self.endpoints(city, here) matches Some((start, end)) && city.is_route(
                        start as int,
                        end as int,
                        after.path,
                    ) && after.path.last() == end
                }
                &&& (self.endpoints(city, here) matches Some((start, end)) ==> forall|
                    route: Seq<usize>,
                | !#[trigger] city.is_route(start as int, end as int, route)) ==> after.goal is None
            }),
    {
    }

    /// A whole tick in a city without buildings. A pedestrian on the grid
    /// with a destination elsewhere on it and no route asks for a search
    /// between the two cells and keeps its destination. Where the search
    /// reports a route of least length, the path that the pedestrian is left
    /// with has as many steps as the Manhattan distance to the destination,
    /// ends on the destination and does not hold the pedestrian's own cell
    /// in front.
    pub proof fn lemma_tick_on_free_grid(
        self,
        city: CityView,
        here: GridCoords,
        goal: GridCoords,
        candidate: Option<GridCoords>,
        steps: Seq<usize>,
    )
        requires
            city.wf(),
            city.all_free(),
            city.on_grid(here.x as int, here.y as int),
            city.on_grid(goal.x as int, goal.y as int),
            self.goal == Some(goal),
            goal != here,
            self.path.len() == 0,
            city.is_least_route(
                city.cell(here.x as int, here.y as int),
                city.cell(goal.x as int, goal.y as int),
                Self::trimmed(steps, city.cell(here.x as int, here.y as int) as usize),
            ),
        ensures
            ({
                let start = city.cell(here.x as int, here.y as int) as usize;
                let end = city.cell(goal.x as int, goal.y as int) as usize;
                let (asked, request) = self.begun(city, here, candidate);
                let after = asked.accepting(city, here, steps);
                &&& request == Some((start, end))
                &&& asked.goal == Some(goal)
                &&& after.goal == Some(goal)
                &&& after.path.len() == here.dist(goal)
                &&& after.path.last() == end
                &&& after.path[0] != start
            }),
    {
        city.lemma_point_index(here.x as int, here.y as int);
        city.lemma_point_index(goal.x as int, goal.y as int);
        let start = city.cell(here.x as int, here.y as int);
        let end = city.cell(goal.x as int, goal.y as int);
        let route = Self::trimmed(steps, start as usize);
        city.lemma_least_route_on_free_grid(start, end, route);
        assert(city.steps_to(CityView::stand(start, route, 0), route[0] as int));
        city.lemma_no_step_in_place(start);
    }
}

} // verus!
