use city_grid::city::City;
use city_grid::coords::GridCoords;
use city_grid::person::{Heading, Person};

const STARTING_CITY: [u8; 25] = [
    0, 0, 0, 0, 0, //
    0, 0, 0, 0, 0, //
    0, 0, 3, 1, 0, //
    0, 1, 0, 0, 0, //
    0, 2, 0, 0, 0, //
];

fn starting_city() -> City {
    City::new(STARTING_CITY.to_vec(), 5)
}

/// A pedestrian on `here` that follows `steps` towards `goal`.
fn walker(city: &City, here: GridCoords, goal: GridCoords, steps: Vec<usize>) -> Person {
    let mut person = Person::new();
    person.head_for(goal);
    person.accept_route(city, here, steps);
    person
}

#[test]
fn a_new_person_has_no_goal_and_no_path() {
    let person = Person::new();
    assert_eq!(person.goal(), None);
    assert!(person.path().is_empty());
    assert_eq!(person.seen_generation(), 0);

    let other = Person::default();
    assert_eq!(other.goal(), None);
    assert!(other.path().is_empty());
    assert_eq!(other.seen_generation(), 0);
}

#[test]
fn a_goal_is_due_without_one_and_on_arrival() {
    let mut person = Person::new();
    assert!(person.wants_goal(GridCoords::origin()));
    person.head_for(GridCoords::new(2, 2));
    assert!(!person.wants_goal(GridCoords::origin()));
    assert!(person.wants_goal(GridCoords::new(2, 2)));
}

#[test]
fn head_for_sets_the_goal_and_drops_the_path() {
    let city = starting_city();
    let mut person = walker(&city, GridCoords::new(-2, -2), GridCoords::new(0, -2), vec![1, 2]);
    assert_eq!(person.path(), &vec![1, 2]);
    person.head_for(GridCoords::new(2, 2));
    assert_eq!(person.goal(), Some(GridCoords::new(2, 2)));
    assert!(person.path().is_empty());
}

#[test]
fn reset_path_keeps_the_goal() {
    let city = starting_city();
    let mut person = walker(&city, GridCoords::new(-2, -2), GridCoords::new(0, -2), vec![1, 2]);
    person.reset_path();
    assert!(person.path().is_empty());
    assert_eq!(person.goal(), Some(GridCoords::new(0, -2)));
}

#[test]
fn abandon_drops_goal_and_path() {
    let city = starting_city();
    let mut person = walker(&city, GridCoords::new(-2, -2), GridCoords::new(0, -2), vec![1, 2]);
    person.abandon();
    assert!(person.path().is_empty());
    assert_eq!(person.goal(), None);
}

#[test]
fn accept_route_takes_a_route_as_it_is() {
    let city = starting_city();
    let person = walker(&city, GridCoords::new(-2, -2), GridCoords::new(0, -2), vec![1, 2]);
    assert_eq!(person.goal(), Some(GridCoords::new(0, -2)));
    assert_eq!(person.path(), &vec![1, 2]);
}

#[test]
fn accept_route_strikes_the_starting_cell_off() {
    let city = starting_city();
    let person = walker(&city, GridCoords::new(-2, -2), GridCoords::new(0, -2), vec![0, 1, 2]);
    assert_eq!(person.goal(), Some(GridCoords::new(0, -2)));
    assert_eq!(person.path(), &vec![1, 2]);
}

#[test]
fn an_empty_search_result_costs_the_goal() {
    let city = starting_city();
    let person = walker(&city, GridCoords::new(-2, -2), GridCoords::new(0, -2), Vec::new());
    assert_eq!(person.goal(), None);
    assert!(person.path().is_empty());
}

#[test]
fn a_search_that_went_nowhere_costs_the_goal() {
    let city = starting_city();
    let person = walker(&city, GridCoords::new(-2, -2), GridCoords::new(-2, -2), vec![0]);
    assert_eq!(person.goal(), None);
    assert!(person.path().is_empty());
}

#[test]
fn what_is_no_route_costs_the_goal() {
    let city = starting_city();
    let here = GridCoords::new(-2, -2);
    let goal = GridCoords::new(0, -2);
    for steps in [
        vec![2],
        vec![1],
        vec![1, 2, 3],
        vec![5, 6, 7, 2, 1],
        vec![1, 7, 2],
        vec![0, 0, 1, 2],
        vec![1, 2, 30],
    ] {
        let person = walker(&city, here, goal, steps);
        assert_eq!(person.goal(), None);
        assert!(person.path().is_empty());
    }
}

#[test]
fn no_route_leads_onto_a_building() {
    let city = starting_city();
    let person = walker(&city, GridCoords::new(-1, 0), GridCoords::origin(), vec![12]);
    assert_eq!(person.goal(), None);
    assert!(person.path().is_empty());
}

#[test]
fn no_route_starts_or_ends_off_the_grid() {
    let city = starting_city();
    let off_start = walker(&city, GridCoords::new(-3, -2), GridCoords::new(-2, -2), vec![0]);
    assert_eq!(off_start.goal(), None);
    let off_goal = walker(&city, GridCoords::new(2, 2), GridCoords::new(3, 2), vec![24]);
    assert_eq!(off_goal.goal(), None);
}

#[test]
fn accept_route_without_a_goal_takes_nothing() {
    let city = starting_city();
    let mut person = Person::new();
    person.accept_route(&city, GridCoords::new(-2, -2), vec![1, 2]);
    assert_eq!(person.goal(), None);
    assert!(person.path().is_empty());
}

#[test]
fn plan_asks_for_a_search_between_the_walker_and_its_goal() {
    let city = starting_city();
    let mut person = Person::new();
    person.head_for(GridCoords::new(2, 2));
    assert_eq!(person.plan(&city, GridCoords::new(-2, -2)), Some((0, 24)));
    assert_eq!(person.goal(), Some(GridCoords::new(2, 2)));
    assert_eq!(person.plan(&city, GridCoords::new(1, -1)), Some((8, 24)));
}

#[test]
fn plan_asks_for_nothing_without_a_goal_or_with_a_path() {
    let city = starting_city();
    let mut idle = Person::new();
    assert_eq!(idle.plan(&city, GridCoords::new(-2, -2)), None);
    assert_eq!(idle.goal(), None);

    let mut busy = walker(&city, GridCoords::new(-2, -2), GridCoords::new(0, -2), vec![1, 2]);
    assert_eq!(busy.plan(&city, GridCoords::new(-2, -2)), None);
    assert_eq!(busy.goal(), Some(GridCoords::new(0, -2)));
    assert_eq!(busy.path(), &vec![1, 2]);
}

#[test]
fn plan_gives_up_a_goal_off_the_grid() {
    let city = starting_city();
    let mut person = Person::new();
    person.head_for(GridCoords::new(3, 0));
    assert_eq!(person.plan(&city, GridCoords::new(-2, -2)), None);
    assert_eq!(person.goal(), None);
}

#[test]
fn plan_gives_up_when_the_walker_is_off_the_grid() {
    let city = starting_city();
    let mut person = Person::new();
    person.head_for(GridCoords::new(2, 2));
    assert_eq!(person.plan(&city, GridCoords::new(0, -3)), None);
    assert_eq!(person.goal(), None);
}

#[test]
fn follow_without_a_path_halts() {
    let city = starting_city();
    let mut person = Person::new();
    assert_eq!(person.follow(&city, GridCoords::origin()), Heading::Halt);
    person.head_for(GridCoords::new(2, 2));
    assert_eq!(person.follow(&city, GridCoords::origin()), Heading::Halt);
    assert_eq!(person.goal(), Some(GridCoords::new(2, 2)));
}

#[test]
fn follow_heads_for_the_next_step() {
    let city = starting_city();
    let here = GridCoords::new(-2, -2);
    let mut person = walker(&city, here, GridCoords::new(0, -2), vec![1, 2]);
    assert_eq!(person.follow(&city, here), Heading::Toward(GridCoords::new(-1, -2)));
    assert_eq!(person.path(), &vec![1, 2]);
    assert_eq!(person.follow(&city, here), Heading::Toward(GridCoords::new(-1, -2)));
    assert_eq!(person.path(), &vec![1, 2]);
}

#[test]
fn follow_strikes_off_the_step_reached_and_halts() {
    let city = starting_city();
    let mut person = walker(&city, GridCoords::new(-2, -2), GridCoords::new(0, -2), vec![1, 2]);
    assert_eq!(person.follow(&city, GridCoords::new(-1, -2)), Heading::Halt);
    assert_eq!(person.path(), &vec![2]);
    assert_eq!(person.follow(&city, GridCoords::new(-1, -2)), Heading::Toward(GridCoords::new(0, -2)));
    assert_eq!(person.follow(&city, GridCoords::new(0, -2)), Heading::Halt);
    assert!(person.path().is_empty());
    assert_eq!(person.goal(), Some(GridCoords::new(0, -2)));
}

#[test]
fn follow_drops_a_path_made_for_a_larger_city() {
    let large = City::new(vec![0; 49], 7);
    let small = City::new(vec![0; 9], 3);
    let mut person = walker(&large, GridCoords::new(2, 3), GridCoords::new(3, 3), vec![48]);
    assert_eq!(person.path(), &vec![48]);
    assert_eq!(person.follow(&small, GridCoords::new(1, 1)), Heading::Halt);
    assert!(person.path().is_empty());
    assert_eq!(person.goal(), Some(GridCoords::new(3, 3)));
}

#[test]
fn observe_drops_the_path_once_per_change() {
    let mut city = starting_city();
    let here = GridCoords::new(-2, -2);
    let mut person = walker(&city, here, GridCoords::new(0, -2), vec![1, 2]);

    person.observe(&city);
    assert_eq!(person.path(), &vec![1, 2]);

    city.set_height_at_coords(GridCoords::new(2, 2), Some(1));
    person.observe(&city);
    assert!(person.path().is_empty());
    assert_eq!(person.goal(), Some(GridCoords::new(0, -2)));
    assert_eq!(person.seen_generation(), city.generation());

    person.accept_route(&city, here, vec![1, 2]);
    person.observe(&city);
    assert_eq!(person.path(), &vec![1, 2]);
}

#[test]
fn the_same_write_twice_is_one_change_to_a_walker() {
    let mut city = starting_city();
    let here = GridCoords::new(-2, -2);
    let mut person = walker(&city, here, GridCoords::new(0, -2), vec![1, 2]);

    city.set_height_at_coords(GridCoords::new(2, 2), Some(1));
    city.set_height_at_coords(GridCoords::new(2, 2), Some(1));
    person.observe(&city);
    assert!(person.path().is_empty());

    person.accept_route(&city, here, vec![1, 2]);
    person.observe(&city);
    person.observe(&city);
    assert_eq!(person.path(), &vec![1, 2]);
}

#[test]
fn a_write_off_the_grid_is_no_change_to_a_walker() {
    let mut city = starting_city();
    let here = GridCoords::new(-2, -2);
    let mut person = walker(&city, here, GridCoords::new(0, -2), vec![1, 2]);
    city.set_height_at_coords(GridCoords::new(3, 0), Some(1));
    person.observe(&city);
    assert_eq!(person.path(), &vec![1, 2]);
}

#[test]
fn begin_tick_with_takes_the_candidate_when_a_goal_is_due() {
    let city = starting_city();
    let mut person = Person::new();
    let request = person.begin_tick_with(&city, GridCoords::new(-2, -2), GridCoords::new(2, 2));
    assert_eq!(request, Some((0, 24)));
    assert_eq!(person.goal(), Some(GridCoords::new(2, 2)));
    assert!(person.path().is_empty());
}

#[test]
fn begin_tick_with_keeps_a_goal_that_is_not_reached() {
    let city = starting_city();
    let here = GridCoords::new(-2, -2);
    let mut person = walker(&city, here, GridCoords::new(0, -2), vec![1, 2]);
    let request = person.begin_tick_with(&city, here, GridCoords::new(2, 2));
    assert_eq!(request, None);
    assert_eq!(person.goal(), Some(GridCoords::new(0, -2)));
    assert_eq!(person.path(), &vec![1, 2]);
}

#[test]
fn a_goal_reached_is_replaced_without_a_search_for_it() {
    let city = starting_city();
    let mut person = Person::new();
    person.head_for(GridCoords::new(1, 1));
    let request = person.begin_tick_with(&city, GridCoords::new(1, 1), GridCoords::new(-2, 2));
    assert_eq!(person.goal(), Some(GridCoords::new(-2, 2)));
    assert_eq!(request, Some((18, 20)));
}

#[test]
fn a_candidate_that_is_the_walkers_own_cell_asks_for_a_search_all_the_same() {
    let city = starting_city();
    let here = GridCoords::new(1, 1);
    let mut person = Person::new();
    assert_eq!(person.begin_tick_with(&city, here, here), Some((18, 18)));
    assert_eq!(person.finish_tick(&city, here, Some(vec![18])), Heading::Halt);
    assert_eq!(person.goal(), None);
    assert!(person.path().is_empty());
}

#[test]
fn finish_tick_without_a_search_just_follows() {
    let city = starting_city();
    let here = GridCoords::new(-2, -2);
    let mut person = walker(&city, here, GridCoords::new(0, -2), vec![1, 2]);
    assert_eq!(person.finish_tick(&city, here, None), Heading::Toward(GridCoords::new(-1, -2)));
    assert_eq!(person.finish_tick(&city, GridCoords::new(-1, -2), None), Heading::Halt);
    assert_eq!(person.path(), &vec![2]);
}

#[test]
fn finish_tick_takes_the_route_and_sets_out() {
    let city = starting_city();
    let here = GridCoords::new(-2, -2);
    let mut person = Person::new();
    assert_eq!(person.begin_tick_with(&city, here, GridCoords::new(0, -2)), Some((0, 2)));
    let heading = person.finish_tick(&city, here, Some(vec![0, 1, 2]));
    assert_eq!(heading, Heading::Toward(GridCoords::new(-1, -2)));
    assert_eq!(person.path(), &vec![1, 2]);
}

#[test]
fn finish_tick_on_an_empty_result_halts_without_goal() {
    let city = starting_city();
    let here = GridCoords::new(-2, -2);
    let mut person = Person::new();
    assert_eq!(person.begin_tick_with(&city, here, GridCoords::origin()), Some((0, 12)));
    assert_eq!(person.finish_tick(&city, here, Some(Vec::new())), Heading::Halt);
    assert_eq!(person.goal(), None);
    assert!(person.path().is_empty());
}

#[test]
fn a_clone_walks_on_its_own() {
    let city = starting_city();
    let mut person = walker(&city, GridCoords::new(-2, -2), GridCoords::new(0, -2), vec![1, 2]);
    let twin = person.clone();
    person.follow(&city, GridCoords::new(-1, -2));
    assert_eq!(person.path(), &vec![2]);
    assert_eq!(twin.path(), &vec![1, 2]);
    assert_eq!(twin.goal(), person.goal());
    assert_eq!(twin.seen_generation(), person.seen_generation());
}

#[test]
fn on_arrival_the_rest_of_the_path_goes_with_the_old_goal() {
    let city = starting_city();
    let goal = GridCoords::new(0, -2);
    let mut person = walker(&city, GridCoords::new(-1, -2), goal, vec![2]);
    assert_eq!(person.path(), &vec![2]);

    let request = person.begin_tick_with(&city, goal, GridCoords::new(2, 2));
    assert_eq!(person.goal(), Some(GridCoords::new(2, 2)));
    assert!(person.path().is_empty());
    assert_eq!(request, Some((2, 24)));
}

#[test]
fn on_arrival_a_candidate_off_the_grid_leaves_no_goal() {
    let city = starting_city();
    let goal = GridCoords::new(0, -2);
    let mut person = walker(&city, GridCoords::new(-1, -2), goal, vec![2]);
    let request = person.begin_tick_with(&city, goal, GridCoords::new(3, 3));
    assert_eq!(person.goal(), None);
    assert!(person.path().is_empty());
    assert_eq!(request, None);
}

#[test]
fn a_route_is_started_in_the_tick_that_plans_it() {
    let city = starting_city();
    let here = GridCoords::new(-2, -2);
    let mut person = Person::new();
    person.begin_tick_with(&city, here, GridCoords::new(-2, 0));
    let heading = person.finish_tick(&city, here, Some(vec![0, 5, 10]));
    assert_eq!(heading, Heading::Toward(GridCoords::new(-2, -1)));
    assert_eq!(person.path(), &vec![5, 10]);
    assert_eq!(person.path().len(), usize::from(here.manhattan_dist(GridCoords::new(-2, 0))));
}
