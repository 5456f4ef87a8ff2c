//! A pedestrian: where it wants to go, the route that it follows, and the
//! rules by which both change from tick to tick.
//!
//! A tick has two halves with a route search between them. The first half
//! notes whether the city has changed, settles the destination and says
//! whether a route is needed and between which cells. The search itself is
//! the caller's business. The second half takes what the search found, checks
//! it against the city and tells the pedestrian where to head.

use crate::city::City;
use crate::coords::GridCoords;
use crate::dice::draw_between;
use crate::grid::CityView;
use rand::rngs::StdRng;
use vstd::prelude::*;

verus! {

/// What a pedestrian does with its velocity for one tick.
#[derive(Clone, Copy, Debug, PartialEq, Eq, Structural)]
pub enum Heading {
    /// Stand still.
    Halt,
    /// Move at walking speed straight towards the centre of this cell.
    Toward(GridCoords),
}

/// Mathematical content of a [`Person`].
pub struct PersonView {
    /// The destination, if one is set.
    pub goal: Option<GridCoords>,
    /// The cells still to step onto, the next one first.
    pub path: Seq<usize>,
    /// Generation of the city when the pedestrian last looked at it.
    pub seen: u64,
}

impl PersonView {
    /// A pedestrian that has just appeared: no destination, no route.
    pub open spec fn fresh() -> PersonView {
        PersonView { goal: None, path: Seq::empty(), seen: 0 }
    }

    /// The same pedestrian without its route.
    pub open spec fn without_path(self) -> PersonView {
        PersonView { goal: self.goal, path: Seq::empty(), seen: self.seen }
    }

    /// The same pedestrian without destination and route.
    pub open spec fn abandoning(self) -> PersonView {
        PersonView { goal: None, path: Seq::empty(), seen: self.seen }
    }

    /// The pedestrian after a look at the city: where the city's generation
    /// is not the one last seen, the route is dropped and the new generation
    /// remembered. The destination stays.
    pub open spec fn observing(self, city: CityView) -> PersonView {
        if city.generation != self.seen {
            PersonView { goal: self.goal, path: Seq::empty(), seen: city.generation }
        } else {
            self
        }
    }

    /// A destination is due: none is set, or the one set is the cell that the
    /// pedestrian stands on.
    pub open spec fn wants_goal(self, here: GridCoords) -> bool {
        self.goal is None || self.goal == Some(here)
    }

    /// The pedestrian with `goal` as its new destination and no route yet.
    pub open spec fn heading_for(self, goal: GridCoords) -> PersonView {
        PersonView { goal: Some(goal), path: Seq::empty(), seen: self.seen }
    }

    /// The pedestrian once its destination is settled: where one is due,
    /// `candidate` becomes the destination; where one is due and there is no
    /// candidate, the pedestrian is left without destination.
    pub open spec fn aiming(self, here: GridCoords, candidate: Option<GridCoords>) -> PersonView {
        if self.wants_goal(here) {
            match candidate {
                Some(goal) => self.heading_for(goal),
                None => self.abandoning(),
            }
        } else {
            self
        }
    }

    /// Indices of the cell that the pedestrian stands on and of its
    /// destination, where there is a destination and both lie on the grid.
    pub open spec fn endpoints(self, city: CityView, here: GridCoords) -> Option<(usize, usize)> {
        match (self.goal, city.index_of(here)) {
            (Some(goal), Some(start)) => match city.index_of(goal) {
                Some(end) => Some((start, end)),
                None => None,
            },
            _ => None,
        }
    }

    /// The pedestrian after planning, and the search that it asks for. A
    /// pedestrian with a route, or without destination, asks for none and
    /// stays as it is. One with a destination and no route asks for a search
    /// between its [`endpoints`](Self::endpoints); where it has none,
    /// because it stands off the grid or wants to go off it, it gives the
    /// destination up.
    pub open spec fn planning(self, city: CityView, here: GridCoords) -> (
        PersonView,
        Option<(usize, usize)>,
    ) {
        if self.path.len() > 0 || self.goal is None {
            (self, None)
        } else {
            match self.endpoints(city, here) {
                Some(ends) => (self, Some(ends)),
                None => (self.abandoning(), None),
            }
        }
    }

    /// The first half of a tick: look at the city, settle the destination,
    /// plan.
    pub open spec fn begun(
        self,
        city: CityView,
        here: GridCoords,
        candidate: Option<GridCoords>,
    ) -> (PersonView, Option<(usize, usize)>) {
        self.observing(city).aiming(here, candidate).planning(city, here)
    }

    /// What a search reported, without the starting cell where the report
    /// begins with it.
    pub open spec fn trimmed(steps: Seq<usize>, start: usize) -> Seq<usize> {
        if steps.len() > 0 && steps[0] == start {
            steps.drop_first()
        } else {
            steps
        }
    }

    /// The pedestrian after it was handed `steps` as the result of a search
    /// from where it stands to its destination. Where `steps`, once
    /// [`trimmed`](Self::trimmed), is a route of the city between the
    /// pedestrian's [`endpoints`](Self::endpoints), it becomes the route
    /// to follow. Anything else, an empty result above all, counts as "no
    /// way there": the destination is given up.
    pub open spec fn accepting(self, city: CityView, here: GridCoords, steps: Seq<usize>) -> PersonView {
        match self.endpoints(city, here) {
            Some((start, end)) => {
                let route = Self::trimmed(steps, start);
                if city.is_route(start as int, end as int, route) {
                    PersonView { goal: self.goal, path: route, seen: self.seen }
                } else {
                    self.abandoning()
                }
            },
            None => self.abandoning(),
        }
    }

    /// The pedestrian after one move along its route, and what it does with
    /// its velocity. Without a route it halts. Standing on the next cell of
    /// the route, it strikes that cell off and halts for the tick. Otherwise
    /// it heads for that cell. A route whose next entry is no cell of the
    /// city is dropped.
    pub open spec fn following(self, city: CityView, here: GridCoords) -> (PersonView, Heading) {
        if self.path.len() == 0 {
            (self, Heading::Halt)
        } else if !city.is_cell(self.path[0] as int) {
            (self.without_path(), Heading::Halt)
        } else if city.coords_of(self.path[0] as int) == here {
            (
                PersonView { goal: self.goal, path: self.path.drop_first(), seen: self.seen },
                Heading::Halt,
            )
        } else {
            (self, Heading::Toward(city.coords_of(self.path[0] as int)))
        }
    }

    /// The second half of a tick: take in what the search found, if one was
    /// made, then move along the route.
    pub open spec fn finished(
        self,
        city: CityView,
        here: GridCoords,
        found: Option<Seq<usize>>,
    ) -> (PersonView, Heading) {
        match found {
            Some(steps) => self.accepting(city, here, steps).following(city, here),
            None => self.following(city, here),
        }
    }

    /// The route, if there is one, runs over cells of `city` and ends on the
    /// destination.
    pub open spec fn on_course(self, city: CityView) -> bool {
        self.path.len() > 0 ==> {
            &&& self.goal matches Some(goal) && city.index_of(goal) == Some(self.path.last())
            &&& forall|i: int| 0 <= i < self.path.len() ==> city.is_cell(#[trigger] self.path[i] as int)
        }
    }
}

/// A pedestrian.
#[derive(Debug)]
pub struct Person {
    goal: Option<GridCoords>,
    path: Vec<usize>,
    seen: u64,
}

impl View for Person {
    type V = PersonView;

    closed spec fn view(&self) -> PersonView {
        PersonView { goal: self.goal, path: self.path@, seen: self.seen }
    }
}

impl Clone for Person {
    fn clone(&self) -> (copy: Person)
        ensures
            copy@ == self@,
    {
        let path: Vec<usize> = self.path.clone();
        assert(path@ =~= self.path@);
        Person { goal: self.goal, path, seen: self.seen }
    }
}

impl Default for Person {
    fn default() -> (person: Person)
        ensures
            person@ == PersonView::fresh(),
    {
        Person { goal: None, path: Vec::new(), seen: 0 }
    }
}

impl Person {
    /// A pedestrian without destination or route.
    pub fn new() -> (person: Person)
        ensures
            person@ == PersonView::fresh(),
    {
        Person { goal: None, path: Vec::new(), seen: 0 }
    }

    /// The destination, if one is set.
    pub fn goal(&self) -> (goal: Option<GridCoords>)
        ensures
            goal == self@.goal,
    {
        self.goal
    }

    /// The cells still to step onto, the next one first.
    pub fn path(&self) -> (path: &Vec<usize>)
        ensures
            path@ == self@.path,
    {
        &self.path
    }

    /// Generation of the city when the pedestrian last looked at it.
    pub fn seen_generation(&self) -> (seen: u64)
        ensures
            seen == self@.seen,
    {
        self.seen
    }

    /// Drops the route. The destination stays.
    pub fn reset_path(&mut self)
        ensures
            final(self)@ == old(self)@.without_path(),
    {
        self.path.clear();
    }

    /// Drops the route where the city has changed since the pedestrian last
    /// looked at it.
    pub fn observe(&mut self, city: &City)
        ensures
            final(self)@ == old(self)@.observing(city@),
    {
        let generation: u64 = city.generation();
        if generation != self.seen {
            self.path.clear();
            self.seen = generation;
        }
    }

    /// Whether a destination is due for a pedestrian standing on `here`.
    pub fn wants_goal(&self, here: GridCoords) -> (due: bool)
        ensures
            due == self@.wants_goal(here),
    {
        match self.goal {
            None => true,
            Some(goal) => goal == here,
        }
    }

    /// Sets the destination and drops the route.
    pub fn head_for(&mut self, goal: GridCoords)
        ensures
            final(self)@ == old(self)@.heading_for(goal),
    {
        self.goal = Some(goal);
        self.path.clear();
    }

    /// Gives up destination and route.
    pub fn abandon(&mut self)
        ensures
            final(self)@ == old(self)@.abandoning(),
    {
        self.goal = None;
        self.path.clear();
    }

    /// Indices of the cell under the pedestrian and of its destination.
    fn endpoints(&self, city: &City, here: GridCoords) -> (ends: Option<(usize, usize)>)
        ensures
            ends == self@.endpoints(city@, here),
    {
        let Some(goal) = self.goal else {
            return None;
        };
        let Some(start) = city.coords_to_index(here) else {
            return None;
        };
        match city.coords_to_index(goal) {
            Some(end) => Some((start, end)),
            None => None,
        }
    }

    /// Plans: says which search the pedestrian needs, if any, and gives the
    /// destination up where it has no route and no search can be made.
    pub fn plan(&mut self, city: &City, here: GridCoords) -> (request: Option<(usize, usize)>)
        ensures
            (final(self)@, request) == old(self)@.planning(city@, here),
    {
        if self.path.len() > 0 || self.goal.is_none() {
            return None;
        }
        let ends: Option<(usize, usize)> = self.endpoints(city, here);
        if ends.is_none() {
            self.abandon();
        }
        ends
    }

    /// Takes in `steps`, the cells that a search from the pedestrian's cell
    /// to its destination reported, in walking order, with or without the
    /// starting cell in front. A result that is a route of `city` is
    /// followed from now on; on any other the destination is given up.
    pub fn accept_route(&mut self, city: &City, here: GridCoords, steps: Vec<usize>)
        ensures
            final(self)@ == old(self)@.accepting(city@, here, steps@),
    {
        let mut route: Vec<usize> = steps;
        match self.endpoints(city, here) {
            Some((start, end)) => {
                if route.len() > 0 && route[0] == start {
                    route.remove(0);
                    assert(route@ =~= steps@.drop_first());
                }
                if city.is_route(start, end, &route) {
                    self.path = route;
                } else {
                    self.abandon();
                }
            },
            None => {
                self.abandon();
            },
        }
    }

    /// Moves one tick along the route and says what to do with the velocity.
    pub fn follow(&mut self, city: &City, here: GridCoords) -> (heading: Heading)
        ensures
            (final(self)@, heading) == old(self)@.following(city@, here),
    {
        if self.path.len() == 0 {
            return Heading::Halt;
        }
        let step: usize = self.path[0];
        if step >= city.cell_count() {
            self.path.clear();
            return Heading::Halt;
        }
        let target: GridCoords = city.index_to_coords(step);
        if target == here {
            self.path.remove(0);
            assert(self.path@ =~= old(self)@.path.drop_first());
            Heading::Halt
        } else {
            Heading::Toward(target)
        }
    }

    /// First half of a tick, with `candidate` as the destination to take
    /// should one be due. Returns the cells between which a route is to be
    /// searched: the pedestrian's own and its destination's.
    pub fn begin_tick_with(&mut self, city: &City, here: GridCoords, candidate: GridCoords) -> (request:
        Option<(usize, usize)>)
        ensures
            (final(self)@, request) == old(self)@.begun(city@, here, Some(candidate)),
    {
        self.observe(city);
        if self.wants_goal(here) {
            self.head_for(candidate);
        }
        self.plan(city, here)
    }

    /// First half of a tick. Where a destination is due, one is drawn from
    /// `rng`, first `x`, then `y`, each from the whole range of the city's
    /// coordinates, so that it lies on the grid but may well be a building;
    /// a city without cells offers none. Returns the cells between which a
    /// route is to be searched.
    pub fn begin_tick(&mut self, city: &City, here: GridCoords, rng: &mut StdRng) -> (request: Option<
        (usize, usize),
    >)
        ensures
            exists|candidate: Option<GridCoords>|
                {
                    &&& candidate is None <==> city@.side == 0
                    &&& candidate matches Some(goal) ==> city@.on_grid(goal.x as int, goal.y as int)
                    &&& (final(self)@, request) == #[trigger] old(self)@.begun(city@, here, candidate)
                },
    {
        self.observe(city);
        let ghost candidate: Option<GridCoords>;
        match city.coordinate_range() {
            Some((low, high)) => {
                if self.wants_goal(here) {
                    let x: i8 = draw_between(rng, low, high);
                    let y: i8 = draw_between(rng, low, high);
                    let goal: GridCoords = GridCoords::new(x, y);
                    self.head_for(goal);
                    proof {
                        candidate = Some(goal);
                    }
                } else {
                    proof {
                        candidate = Some(GridCoords { x: low, y: low });
                    }
                }
            },
            None => {
                if self.wants_goal(here) {
                    self.abandon();
                }
                proof {
                    candidate = None;
                }
            },
        }
        let request: Option<(usize, usize)> = self.plan(city, here);
        assert((self@, request) == old(self)@.begun(city@, here, candidate));
        request
    }

    /// Second half of a tick. `found` holds what the search reported that
    /// the first half asked for, and is `None` where it asked for none.
    pub fn finish_tick(&mut self, city: &City, here: GridCoords, found: Option<Vec<usize>>) -> (heading:
        Heading)
        ensures
            (final(self)@, heading) == old(self)@.finished(
                city@,
                here,
                match found {
                    Some(steps) => Some(steps@),
                    None => None,
                },
            ),
    {
        if let Some(steps) = found {
            self.accept_route(city, here, steps);
        }
        self.follow(city, here)
    }
}

} // verus!
