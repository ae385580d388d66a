use snake_game::world::color::Color;
use snake_game::world::error::InternalConsistencyError;
use snake_game::world::coord::Coord;
use snake_game::world::World;
use snake_game::world::simulation::START_LEN;

fn cells_of(world: &World, color: Color) -> Vec<Coord> {
    world
        .screen
        .iter_pixels()
        .expect("every cell has a color")
        .into_iter()
        .filter(|(found, _)| *found == color)
        .map(|(_, coord)| coord)
        .collect()
}

fn body_of(world: &World) -> Vec<Coord> {
    world.snake.iter().copied().collect()
}

fn head_of(world: &World) -> Coord {
    *world.snake.back().expect("the snake has a head")
}

/// A fresh 30 by 30 world steered so that its next tick eats the first food.
fn world_about_to_eat() -> World {
    let mut world = World::new(30, 30);
    world.click(6, 0);
    assert_eq!(world.tick(), Ok(()));
    assert_eq!(world.tick(), Ok(()));
    world.click(29, 13);
    assert_eq!(head_of(&world), Coord::new(6, 13));
    assert_eq!(world.direction, Coord::new(1, 0));
    world
}

/// A fresh 30 by 30 world steered so that its next tick bites the snake.
fn world_about_to_bite() -> World {
    let mut world = World::new(30, 30);
    world.click(6, 0);
    assert_eq!(world.tick(), Ok(()));
    world.click(0, 14);
    assert_eq!(world.tick(), Ok(()));
    world.click(5, 29);
    assert_eq!(head_of(&world), Coord::new(5, 14));
    assert_eq!(world.direction, Coord::new(0, 1));
    world
}

#[test]
fn the_snake_starts_seven_cells_long() {
    assert_eq!(START_LEN, 7);
}

#[test]
fn a_new_world_shows_the_snake_and_one_food() {
    let world = World::new(30, 30);
    assert!(world.alive);
    assert_eq!(world.direction, Coord::new(1, 0));
    assert_eq!(world.screen.width, 30);
    assert_eq!(world.screen.height, 30);
    assert_eq!(world.snake.len(), 7);
    let expected_body: Vec<Coord> = (0..7).map(|x| Coord::new(x, 15)).collect();
    assert_eq!(body_of(&world), expected_body);
    for y in 0..30 {
        for x in 0..30 {
            let expected = if y == 15 && x < 7 {
                Color::Snake
            } else if (x, y) == (7, 13) {
                Color::Food
            } else {
                Color::Background
            };
            assert_eq!(world.screen.get_color_at(&Coord::new(x, y)), Ok(expected));
        }
    }
}

#[test]
fn a_new_world_keeps_the_fourth_byte_of_every_cell_at_255() {
    let world = World::new(9, 5);
    assert_eq!(world.screen.pixel_buffer.len(), 180);
    for (at, byte) in world.screen.pixel_buffer.iter().enumerate() {
        if at % 4 == 3 {
            assert_eq!(*byte, 255);
        }
    }
}

#[test]
fn a_new_world_on_the_smallest_grid() {
    let world = World::new(8, 4);
    assert_eq!(body_of(&world), (0..7).map(|x| Coord::new(x, 2)).collect::<Vec<_>>());
    assert_eq!(cells_of(&world, Color::Food), vec![Coord::new(7, 0)]);
    assert_eq!(cells_of(&world, Color::Snake).len(), 7);
    assert_eq!(cells_of(&world, Color::Background).len(), 24);
}

#[test]
fn a_new_world_centres_the_snake_on_an_odd_height() {
    let world = World::new(10, 9);
    assert_eq!(head_of(&world), Coord::new(6, 4));
    assert_eq!(cells_of(&world, Color::Food), vec![Coord::new(7, 2)]);
}

#[test]
fn a_tick_moves_the_snake_one_cell_on() {
    let mut world = World::new(30, 30);
    assert_eq!(world.tick(), Ok(()));
    assert!(world.alive);
    assert_eq!(body_of(&world), (1..8).map(|x| Coord::new(x, 15)).collect::<Vec<_>>());
    assert_eq!(world.screen.get_color_at(&Coord::new(0, 15)), Ok(Color::Background));
    assert_eq!(world.screen.get_color_at(&Coord::new(7, 15)), Ok(Color::Snake));
    assert_eq!(cells_of(&world, Color::Snake).len(), 7);
    assert_eq!(cells_of(&world, Color::Food), vec![Coord::new(7, 13)]);
}

#[test]
fn the_head_wraps_from_the_right_edge_to_the_left() {
    let mut world = World::new(30, 30);
    for _ in 0..23 {
        assert_eq!(world.tick(), Ok(()));
    }
    assert_eq!(head_of(&world), Coord::new(29, 15));
    assert_eq!(world.tick(), Ok(()));
    assert!(world.alive);
    assert_eq!(head_of(&world), Coord::new(0, 15));
    assert_eq!(world.snake.len(), 7);
    assert_eq!(world.screen.get_color_at(&Coord::new(0, 15)), Ok(Color::Snake));
}

#[test]
fn the_head_wraps_from_the_top_edge_to_the_bottom() {
    let mut world = World::new(30, 30);
    world.click(6, 0);
    for _ in 0..15 {
        assert_eq!(world.tick(), Ok(()));
    }
    assert_eq!(head_of(&world), Coord::new(6, 0));
    assert_eq!(world.tick(), Ok(()));
    assert!(world.alive);
    assert_eq!(head_of(&world), Coord::new(6, 29));
}

#[test]
fn the_head_wraps_from_the_bottom_edge_to_the_top() {
    let mut world = World::new(30, 30);
    world.click(6, 29);
    for _ in 0..14 {
        assert_eq!(world.tick(), Ok(()));
    }
    assert_eq!(head_of(&world), Coord::new(6, 29));
    assert_eq!(world.tick(), Ok(()));
    assert_eq!(head_of(&world), Coord::new(6, 0));
}

#[test]
fn the_head_wraps_from_the_left_edge_to_the_right() {
    let mut world = World::new(30, 30);
    world.click(6, 29);
    assert_eq!(world.tick(), Ok(()));
    world.click(0, 16);
    assert_eq!(world.direction, Coord::new(-1, 0));
    for _ in 0..6 {
        assert_eq!(world.tick(), Ok(()));
    }
    assert_eq!(head_of(&world), Coord::new(0, 16));
    assert_eq!(world.tick(), Ok(()));
    assert!(world.alive);
    assert_eq!(head_of(&world), Coord::new(29, 16));
}

#[test]
fn a_click_above_a_snake_in_a_row_turns_it_up() {
    let mut world = World::new(30, 30);
    world.click(20, 14);
    assert_eq!(world.direction, Coord::new(0, -1));
}

#[test]
fn a_click_level_with_or_below_a_snake_in_a_row_turns_it_down() {
    let mut world = World::new(30, 30);
    world.click(0, 15);
    assert_eq!(world.direction, Coord::new(0, 1));
    let mut world = World::new(30, 30);
    world.click(0, 16);
    assert_eq!(world.direction, Coord::new(0, 1));
}

#[test]
fn a_click_left_of_a_snake_in_a_column_turns_it_left() {
    let mut world = World::new(30, 30);
    world.click(6, 0);
    world.click(5, 0);
    assert_eq!(world.direction, Coord::new(-1, 0));
}

#[test]
fn a_click_level_with_or_right_of_a_snake_in_a_column_turns_it_right() {
    let mut world = World::new(30, 30);
    world.click(6, 0);
    world.click(6, 0);
    assert_eq!(world.direction, Coord::new(1, 0));
    let mut world = World::new(30, 30);
    world.click(6, 0);
    world.click(7, 29);
    assert_eq!(world.direction, Coord::new(1, 0));
}

#[test]
fn a_click_never_keeps_or_reverses_the_heading() {
    for (x, y) in [(0, 0), (29, 29), (-5, 100), (6, 15), (i32::MIN, i32::MAX)] {
        let mut world = World::new(30, 30);
        world.click(x, y);
        assert_eq!(world.direction.x, 0);
        assert_eq!(world.direction.y.abs(), 1);
        world.click(x, y);
        assert_eq!(world.direction.y, 0);
        assert_eq!(world.direction.x.abs(), 1);
    }
}

#[test]
fn a_click_changes_nothing_but_the_heading() {
    let mut world = World::new(30, 30);
    let buffer = world.screen.pixel_buffer.clone();
    let body = body_of(&world);
    world.click(3, 3);
    assert!(world.alive);
    assert_eq!(world.screen.pixel_buffer, buffer);
    assert_eq!(body_of(&world), body);
}

#[test]
fn biting_itself_kills_the_snake_and_paints_the_border() {
    let mut world = world_about_to_bite();
    assert_eq!(world.screen.get_color_at(&Coord::new(5, 15)), Ok(Color::Snake));
    assert_eq!(world.tick(), Ok(()));
    assert!(!world.alive);
    assert_eq!(world.snake.len(), 8);
    assert_eq!(head_of(&world), Coord::new(5, 15));
    for y in 0..30 {
        for x in 0..30 {
            if x == 0 || y == 0 || x == 29 || y == 29 {
                assert_eq!(world.screen.get_color_at(&Coord::new(x, y)), Ok(Color::Fail));
            }
        }
    }
    assert_eq!(cells_of(&world, Color::Fail).len(), 116);
}

#[test]
fn a_dead_snake_keeps_its_full_length_on_the_grid() {
    let mut world = world_about_to_bite();
    let body = body_of(&world);
    assert_eq!(world.tick(), Ok(()));
    let mut expected = body;
    expected.push(Coord::new(5, 15));
    assert_eq!(body_of(&world), expected);
    for coord in &expected[..7] {
        assert_eq!(world.screen.get_color_at(coord), Ok(Color::Snake));
    }
    assert_eq!(world.screen.get_color_at(&Coord::new(7, 13)), Ok(Color::Food));
}

#[test]
fn a_tick_on_a_dead_snake_changes_nothing() {
    let mut world = world_about_to_bite();
    assert_eq!(world.tick(), Ok(()));
    let buffer = world.screen.pixel_buffer.clone();
    let body = body_of(&world);
    let direction = world.direction;
    for _ in 0..3 {
        assert_eq!(world.tick(), Ok(()));
        assert!(!world.alive);
        assert_eq!(world.screen.pixel_buffer, buffer);
        assert_eq!(body_of(&world), body);
        assert_eq!(world.direction, direction);
    }
}

#[test]
fn a_click_on_a_dead_snake_starts_a_fresh_game() {
    for (x, y) in [(0, 0), (29, 29), (-1, -1), (5, 15), (i32::MAX, i32::MIN)] {
        let mut world = world_about_to_bite();
        assert_eq!(world.tick(), Ok(()));
        assert!(!world.alive);
        world.click(x, y);
        let fresh = World::new(30, 30);
        assert!(world.alive);
        assert_eq!(world.direction, fresh.direction);
        assert_eq!(body_of(&world), body_of(&fresh));
        assert_eq!(world.screen.pixel_buffer, fresh.screen.pixel_buffer);
        assert_eq!(world.screen.width, 30);
        assert_eq!(world.screen.height, 30);
        assert_eq!(world.screen.pixel_count, 900);
    }
}

#[test]
fn a_fresh_game_after_death_plays_on() {
    let mut world = world_about_to_bite();
    assert_eq!(world.tick(), Ok(()));
    world.click(0, 0);
    assert_eq!(world.tick(), Ok(()));
    assert_eq!(head_of(&world), Coord::new(7, 15));
    assert_eq!(world.snake.len(), 7);
}

#[test]
fn eating_grows_the_snake_by_one_and_leaves_one_food() {
    let mut world = world_about_to_eat();
    let body = body_of(&world);
    assert_eq!(cells_of(&world, Color::Food), vec![Coord::new(7, 13)]);
    let free_before = cells_of(&world, Color::Background);
    assert_eq!(world.tick(), Ok(()));
    assert!(world.alive);
    assert_eq!(world.snake.len(), 8);
    let mut expected = body;
    expected.push(Coord::new(7, 13));
    assert_eq!(body_of(&world), expected);
    assert_eq!(world.screen.get_color_at(&Coord::new(7, 13)), Ok(Color::Snake));
    let food = cells_of(&world, Color::Food);
    assert_eq!(food.len(), 1);
    assert_ne!(food[0], Coord::new(7, 13));
    assert!(free_before.contains(&food[0]));
    assert_eq!(cells_of(&world, Color::Snake).len(), 8);
    assert_eq!(cells_of(&world, Color::Background).len(), 891);
}

#[test]
fn the_snake_keeps_its_new_length_after_eating() {
    let mut world = world_about_to_eat();
    assert_eq!(world.tick(), Ok(()));
    world.click(29, 0);
    let food = cells_of(&world, Color::Food)[0];
    if food != Coord::new(7, 12) {
        assert_eq!(world.tick(), Ok(()));
        assert_eq!(world.snake.len(), 8);
        assert_eq!(head_of(&world), Coord::new(7, 12));
    }
}

#[test]
fn new_food_does_not_always_fall_on_the_same_cell() {
    let mut seen: Vec<Coord> = Vec::new();
    for _ in 0..40 {
        let mut world = world_about_to_eat();
        assert_eq!(world.tick(), Ok(()));
        let food = cells_of(&world, Color::Food);
        assert_eq!(food.len(), 1);
        if !seen.contains(&food[0]) {
            seen.push(food[0]);
        }
    }
    assert!(seen.len() > 1);
}

#[test]
fn food_goes_to_the_free_cell_that_the_number_picks() {
    let mut world = World::new(30, 30);
    assert_eq!(world.place_food(0), Ok(()));
    assert_eq!(world.screen.get_color_at(&Coord::new(0, 0)), Ok(Color::Food));

    let mut world = World::new(30, 30);
    assert_eq!(world.place_food(5), Ok(()));
    assert_eq!(world.screen.get_color_at(&Coord::new(5, 0)), Ok(Color::Food));

    let mut world = World::new(30, 30);
    assert_eq!(world.place_food(396), Ok(()));
    assert_eq!(world.screen.get_color_at(&Coord::new(6, 13)), Ok(Color::Food));

    let mut world = World::new(30, 30);
    assert_eq!(world.place_food(397), Ok(()));
    assert_eq!(world.screen.get_color_at(&Coord::new(8, 13)), Ok(Color::Food));
    assert_eq!(world.screen.get_color_at(&Coord::new(7, 13)), Ok(Color::Food));

    let mut world = World::new(30, 30);
    assert_eq!(world.place_food(449), Ok(()));
    assert_eq!(world.screen.get_color_at(&Coord::new(7, 15)), Ok(Color::Food));
}

#[test]
fn food_numbers_past_the_free_cells_start_over() {
    let mut world = World::new(30, 30);
    assert_eq!(cells_of(&world, Color::Background).len(), 892);
    assert_eq!(world.place_food(892), Ok(()));
    assert_eq!(world.screen.get_color_at(&Coord::new(0, 0)), Ok(Color::Food));

    let mut world = World::new(30, 30);
    assert_eq!(world.place_food(899), Ok(()));
    assert_eq!(world.screen.get_color_at(&Coord::new(7, 0)), Ok(Color::Food));

    let mut world = World::new(30, 30);
    assert_eq!(world.place_food(891), Ok(()));
    assert_eq!(world.screen.get_color_at(&Coord::new(29, 29)), Ok(Color::Food));
}

#[test]
fn placing_food_changes_one_cell_only() {
    let mut world = World::new(30, 30);
    let buffer = world.screen.pixel_buffer.clone();
    let body = body_of(&world);
    assert_eq!(world.place_food(31), Ok(()));
    assert_eq!(body_of(&world), body);
    assert!(world.alive);
    assert_eq!(world.direction, Coord::new(1, 0));
    let mut expected = buffer;
    let at = (1 * 30 + 1) * 4;
    expected[at] = 0;
    expected[at + 1] = 0;
    expected[at + 2] = 255;
    assert_eq!(world.screen.pixel_buffer, expected);
}

/// An 8 by 4 world in which every cell off the snake reads as failure, but for
/// the one ahead of the head, which reads as food.
fn crowded_world() -> World {
    let mut world = World::new(8, 4);
    for coord in world.screen.iter_coords() {
        if world.screen.get_color_at(&coord) != Ok(Color::Snake) {
            world.screen.set_color_at(&coord, Color::Fail);
        }
    }
    world.screen.set_color_at(&Coord::new(7, 2), Color::Food);
    world
}

#[test]
fn food_on_a_full_board_is_an_error_and_changes_nothing() {
    let mut world = crowded_world();
    let buffer = world.screen.pixel_buffer.clone();
    assert_eq!(world.place_food(3), Err(InternalConsistencyError::BoardFull));
    assert_eq!(world.screen.pixel_buffer, buffer);
    assert_eq!(world.snake.len(), 7);
}

#[test]
fn eating_on_a_full_board_is_an_error_after_the_head_has_moved() {
    let mut world = crowded_world();
    assert_eq!(world.tick(), Err(InternalConsistencyError::BoardFull));
    assert!(world.alive);
    assert_eq!(world.snake.len(), 8);
    assert_eq!(head_of(&world), Coord::new(7, 2));
    assert_eq!(world.screen.get_color_at(&Coord::new(7, 2)), Ok(Color::Snake));
    assert!(cells_of(&world, Color::Food).is_empty());
    assert!(cells_of(&world, Color::Background).is_empty());
}

#[test]
fn a_cell_of_failure_is_walked_over_like_background() {
    let mut world = World::new(30, 30);
    world.screen.set_color_at(&Coord::new(7, 15), Color::Fail);
    assert_eq!(world.tick(), Ok(()));
    assert!(world.alive);
    assert_eq!(world.snake.len(), 7);
    assert_eq!(head_of(&world), Coord::new(7, 15));
    assert_eq!(world.screen.get_color_at(&Coord::new(7, 15)), Ok(Color::Snake));
    assert_eq!(world.screen.get_color_at(&Coord::new(0, 15)), Ok(Color::Background));
}

#[test]
fn the_cell_the_tail_is_about_to_leave_still_counts_as_snake() {
    let mut world = World::new(8, 4);
    world.screen.set_color_at(&Coord::new(7, 2), Color::Food);
    assert_eq!(world.tick(), Ok(()));
    assert!(world.alive);
    assert_eq!(body_of(&world), (0..8).map(|x| Coord::new(x, 2)).collect::<Vec<_>>());
    assert_eq!(world.tick(), Ok(()));
    assert!(!world.alive);
    assert_eq!(world.snake.len(), 9);
    assert_eq!(head_of(&world), Coord::new(0, 2));
    assert_eq!(world.screen.get_color_at(&Coord::new(0, 2)), Ok(Color::Fail));
    assert_eq!(world.screen.get_color_at(&Coord::new(1, 2)), Ok(Color::Snake));
}
