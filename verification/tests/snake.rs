use clk::snake::{
    set_random_seed, Direction, Game, Position, Rng, CENTER, DEAD_ZONE, GRID_COUNT, GRID_SIZE,
    SCREEN_SIZE, SPAWN_ATTEMPTS,
};

fn cell(x: u16, y: u16) -> Position {
    Position { x, y }
}

#[test]
fn the_grid_fills_the_screen() {
    assert_eq!(GRID_SIZE, 10);
    assert_eq!(GRID_COUNT, 24);
    assert_eq!(SCREEN_SIZE, 240);
    assert_eq!(GRID_SIZE * GRID_COUNT, SCREEN_SIZE);
    assert_eq!(SPAWN_ATTEMPTS, 32768);
}

#[test]
fn the_generator_multiplies_by_25173_and_adds_13849() {
    let mut rng = Rng::new(0);
    assert_eq!(rng.random(), 13849);
    assert_eq!(rng.seed, 13849);
    assert_eq!(rng.random(), 48742);
    assert_eq!(rng.random(), 31223);
    let mut rng = Rng::new(1);
    assert_eq!(rng.random(), 39022);
    let mut rng = Rng::new(65535);
    assert_eq!(rng.random(), 54212);
}

#[test]
fn the_generator_goes_through_every_number_once() {
    let mut rng = Rng::new(7);
    let mut seen = vec![false; 65536];
    for _ in 0..65536 {
        let r = rng.random() as usize;
        assert!(!seen[r]);
        seen[r] = true;
    }
    assert_eq!(rng.seed, 7);
}

#[test]
fn a_new_seed_starts_the_generator_over() {
    let mut rng = Rng::new(5);
    let first = rng.random();
    rng.random();
    set_random_seed(&mut rng, 5);
    assert_eq!(rng.seed, 5);
    assert_eq!(rng.random(), first);
}

#[test]
fn every_direction_has_its_opposite() {
    assert!(Direction::Up.opposite() == Direction::Down);
    assert!(Direction::Down.opposite() == Direction::Up);
    assert!(Direction::Left.opposite() == Direction::Right);
    assert!(Direction::Right.opposite() == Direction::Left);
    for d in [Direction::Up, Direction::Down, Direction::Left, Direction::Right] {
        assert!(d.opposite() != d);
        assert!(d.opposite().opposite() == d);
    }
}

#[test]
fn the_joystick_at_rest_asks_for_nothing() {
    assert_eq!(Direction::from_joystick(CENTER, CENTER), None);
    assert_eq!(Direction::from_joystick(CENTER - DEAD_ZONE, CENTER + DEAD_ZONE), None);
    assert_eq!(Direction::from_joystick(3800, 4000), None);
    assert_eq!(Direction::from_joystick(4000, 3800), None);
}

#[test]
fn the_joystick_points_along_one_axis() {
    assert_eq!(Direction::from_joystick(3799, 3900), Some(Direction::Left));
    assert_eq!(Direction::from_joystick(0, 3900), Some(Direction::Left));
    assert_eq!(Direction::from_joystick(4001, 3900), Some(Direction::Right));
    assert_eq!(Direction::from_joystick(4095, 3900), Some(Direction::Right));
    assert_eq!(Direction::from_joystick(3900, 3799), Some(Direction::Up));
    assert_eq!(Direction::from_joystick(3900, 4001), Some(Direction::Down));
    assert_eq!(Direction::from_joystick(65535, 3900), Some(Direction::Right));
}

#[test]
fn the_horizontal_axis_decides_on_a_diagonal() {
    assert_eq!(Direction::from_joystick(0, 0), Some(Direction::Left));
    assert_eq!(Direction::from_joystick(0, 4095), Some(Direction::Left));
    assert_eq!(Direction::from_joystick(4095, 0), Some(Direction::Right));
    assert_eq!(Direction::from_joystick(4095, 4095), Some(Direction::Right));
}

#[test]
fn a_new_game() {
    let mut rng = Rng::new(0);
    let game = Game::new(&mut rng);
    assert_eq!(game.snake, vec![cell(12, 12), cell(11, 12), cell(10, 12)]);
    assert!(game.direction == Direction::Right);
    assert!(game.next_direction == Direction::Right);
    assert_eq!(game.score, 0);
    assert!(!game.game_over);
    // 13849 % 24 = 1, 48742 % 24 = 22
    assert_eq!(game.food, cell(1, 22));
    assert_eq!(rng.seed, 48742);
}

#[test]
fn food_never_appears_on_the_snake() {
    // From seed 0 the generator proposes (1, 22) and then (23, 20).
    let mut rng = Rng::new(0);
    let mut game = Game::new(&mut rng);
    set_random_seed(&mut rng, 0);
    game.snake = vec![cell(0, 0), cell(1, 22), cell(0, 1)];
    game.food = cell(1, 0);
    game.update(&mut rng);
    assert_eq!(game.snake, vec![cell(1, 0), cell(0, 0), cell(1, 22), cell(0, 1)]);
    assert_eq!(game.score, 1);
    assert_eq!(game.food, cell(23, 20));
    assert_eq!(rng.seed, 17180);
    assert!(!game.game_over);
}

#[test]
fn the_game_ends_when_no_cell_for_food_is_found() {
    // The generator only ever proposes 72 of the cells. With all of them
    // taken, the search gives up and the generator is back where it was.
    let mut rng = Rng::new(0);
    let mut game = Game::new(&mut rng);
    let mut proposed = Vec::new();
    for seed in 0..=65535u16 {
        let mut probe = Rng::new(seed);
        let c = cell(probe.random() % 24, probe.random() % 24);
        if !proposed.contains(&c) {
            proposed.push(c);
        }
    }
    assert_eq!(proposed.len(), 72);
    assert!(!proposed.contains(&cell(0, 0)) && !proposed.contains(&cell(2, 0)));
    let mut snake = vec![cell(0, 0)];
    snake.extend(proposed.iter().copied());
    game.snake = snake.clone();
    game.score = 70;
    game.food = cell(1, 0);
    set_random_seed(&mut rng, 321);
    game.update(&mut rng);
    assert!(game.game_over);
    assert_eq!(game.score, 71);
    assert_eq!(game.food, cell(1, 0));
    assert_eq!(game.snake.len(), 74);
    assert_eq!(game.snake[0], cell(1, 0));
    assert_eq!(&game.snake[1..], &snake[..]);
    assert_eq!(rng.seed, 321);
}

#[test]
fn the_snake_moves_one_cell_and_keeps_its_length() {
    let mut rng = Rng::new(0);
    let mut game = Game::new(&mut rng);
    let seed = rng.seed;
    game.update(&mut rng);
    assert_eq!(game.snake, vec![cell(13, 12), cell(12, 12), cell(11, 12)]);
    assert_eq!(game.score, 0);
    assert_eq!(game.food, cell(1, 22));
    assert!(!game.game_over);
    assert_eq!(rng.seed, seed);
    game.set_direction(Direction::Up);
    game.update(&mut rng);
    assert_eq!(game.snake, vec![cell(13, 11), cell(13, 12), cell(12, 12)]);
    game.set_direction(Direction::Left);
    game.update(&mut rng);
    assert_eq!(game.snake, vec![cell(12, 11), cell(13, 11), cell(13, 12)]);
    game.set_direction(Direction::Down);
    game.update(&mut rng);
    // (12, 12) was given up two moves ago.
    assert_eq!(game.snake, vec![cell(12, 12), cell(12, 11), cell(13, 11)]);
    assert!(!game.game_over);
}

#[test]
fn the_snake_cannot_turn_right_round() {
    let mut rng = Rng::new(0);
    let mut game = Game::new(&mut rng);
    game.set_direction(Direction::Left);
    assert!(game.direction == Direction::Right);
    assert!(game.next_direction == Direction::Right);
    game.set_direction(Direction::Right);
    assert!(game.direction == Direction::Right);
    game.set_direction(Direction::Up);
    assert!(game.direction == Direction::Up);
    assert!(game.next_direction == Direction::Up);
    game.set_direction(Direction::Down);
    assert!(game.direction == Direction::Up);
    game.set_direction(Direction::Left);
    assert!(game.direction == Direction::Left);
    game.set_direction(Direction::Right);
    assert!(game.direction == Direction::Left);
    assert_eq!(game.snake, vec![cell(12, 12), cell(11, 12), cell(10, 12)]);
    assert_eq!(game.score, 0);
}

#[test]
fn the_game_ends_at_the_right_wall() {
    let mut rng = Rng::new(0);
    let mut game = Game::new(&mut rng);
    for _ in 0..11 {
        game.update(&mut rng);
        assert!(!game.game_over);
    }
    assert_eq!(game.snake[0], cell(23, 12));
    let before = game.snake.clone();
    game.update(&mut rng);
    assert!(game.game_over);
    assert_eq!(game.snake, before);
    assert_eq!(game.score, 0);
}

#[test]
fn the_game_ends_at_the_top_wall() {
    let mut rng = Rng::new(0);
    let mut game = Game::new(&mut rng);
    game.set_direction(Direction::Up);
    for _ in 0..12 {
        game.update(&mut rng);
        assert!(!game.game_over);
    }
    assert_eq!(game.snake[0], cell(12, 0));
    game.update(&mut rng);
    assert!(game.game_over);
    assert_eq!(game.snake[0], cell(12, 0));
}

#[test]
fn the_game_ends_at_the_left_and_bottom_walls() {
    let mut rng = Rng::new(0);
    let mut game = Game::new(&mut rng);
    game.set_direction(Direction::Down);
    for _ in 0..11 {
        game.update(&mut rng);
    }
    assert_eq!(game.snake[0], cell(12, 23));
    assert!(!game.game_over);
    game.update(&mut rng);
    assert!(game.game_over);

    let mut game = Game::new(&mut rng);
    game.food = cell(23, 23);
    game.set_direction(Direction::Down);
    game.update(&mut rng);
    game.set_direction(Direction::Left);
    for _ in 0..12 {
        game.update(&mut rng);
    }
    assert_eq!(game.snake[0], cell(0, 13));
    assert!(!game.game_over);
    game.update(&mut rng);
    assert!(game.game_over);
}

#[test]
fn the_game_ends_when_the_snake_runs_into_itself() {
    let mut rng = Rng::new(0);
    let mut game = Game::new(&mut rng);
    // Grow to five cells so that a tight turn meets the body.
    game.food = cell(13, 12);
    game.update(&mut rng);
    game.food = cell(14, 12);
    game.update(&mut rng);
    assert_eq!(game.snake.len(), 5);
    game.food = cell(0, 0);
    game.set_direction(Direction::Up);
    game.update(&mut rng);
    game.set_direction(Direction::Left);
    game.update(&mut rng);
    game.set_direction(Direction::Down);
    assert!(!game.game_over);
    let before = game.snake.clone();
    game.update(&mut rng);
    assert!(game.game_over);
    assert_eq!(game.snake, before);
    assert_eq!(game.score, 2);
}

#[test]
fn the_cell_that_the_tail_is_about_to_leave_still_counts() {
    let mut rng = Rng::new(0);
    let mut game = Game::new(&mut rng);
    game.food = cell(13, 12);
    game.update(&mut rng);
    game.food = cell(0, 0);
    // Four cells in a row; walk a square back onto the last one.
    game.set_direction(Direction::Up);
    game.update(&mut rng);
    game.set_direction(Direction::Left);
    game.update(&mut rng);
    assert_eq!(game.snake, vec![cell(12, 11), cell(13, 11), cell(13, 12), cell(12, 12)]);
    game.set_direction(Direction::Down);
    game.update(&mut rng);
    assert!(game.game_over);
}

#[test]
fn eating_grows_the_snake_and_places_new_food() {
    let mut rng = Rng::new(0);
    let mut game = Game::new(&mut rng);
    game.food = cell(13, 12);
    let mut probe = rng;
    let next_food = cell(probe.random() % 24, probe.random() % 24);
    game.update(&mut rng);
    assert_eq!(game.snake, vec![cell(13, 12), cell(12, 12), cell(11, 12), cell(10, 12)]);
    assert_eq!(game.score, 1);
    assert!(!game.game_over);
    assert_eq!(game.food, next_food);
    // 31223 % 24 = 23, 17180 % 24 = 20
    assert_eq!(game.food, cell(23, 20));
    assert_eq!(rng.seed, probe.seed);
}

#[test]
fn a_game_that_is_over_does_not_move() {
    let mut rng = Rng::new(0);
    let mut game = Game::new(&mut rng);
    game.game_over = true;
    let seed = rng.seed;
    game.update(&mut rng);
    assert_eq!(game.snake, vec![cell(12, 12), cell(11, 12), cell(10, 12)]);
    assert_eq!(game.food, cell(1, 22));
    assert_eq!(game.score, 0);
    assert!(game.game_over);
    assert_eq!(rng.seed, seed);
}

#[test]
fn reset_starts_a_new_game() {
    let mut rng = Rng::new(0);
    let mut game = Game::new(&mut rng);
    game.food = cell(13, 12);
    game.update(&mut rng);
    game.set_direction(Direction::Up);
    for _ in 0..20 {
        game.update(&mut rng);
    }
    assert!(game.game_over);
    let mut probe = rng;
    let food = cell(probe.random() % 24, probe.random() % 24);
    game.reset(&mut rng);
    assert_eq!(game.snake, vec![cell(12, 12), cell(11, 12), cell(10, 12)]);
    assert!(game.direction == Direction::Right);
    assert_eq!(game.score, 0);
    assert!(!game.game_over);
    assert_eq!(game.food, food);
}

#[test]
fn the_score_is_the_growth_of_the_snake() {
    let mut rng = Rng::new(99);
    let mut game = Game::new(&mut rng);
    // Walk the grid row by row and put the food in front of the head now
    // and then.
    game.set_direction(Direction::Up);
    for _ in 0..12 {
        game.update(&mut rng);
    }
    game.set_direction(Direction::Right);
    let mut step = 0;
    while !game.game_over && step < 2000 {
        let head = game.snake[0];
        if step % 5 == 0 {
            game.food = match game.direction {
                Direction::Right => cell(head.x + 1, head.y),
                Direction::Left => cell(head.x.wrapping_sub(1), head.y),
                Direction::Down => cell(head.x, head.y + 1),
                Direction::Up => cell(head.x, head.y.wrapping_sub(1)),
            };
        }
        game.update(&mut rng);
        assert_eq!(game.snake.len(), game.score as usize + 3);
        for (i, a) in game.snake.iter().enumerate() {
            assert!(a.x < 24 && a.y < 24);
            assert!(!game.snake[..i].contains(a));
        }
        assert!(game.game_over || !game.snake.contains(&game.food) || step % 5 != 4);
        step += 1;
    }
    assert!(game.game_over);
    assert!(game.score >= 2);
}

#[test]
fn a_new_game_is_never_over() {
    for seed in 0..=65535u16 {
        let mut probe = Rng::new(seed);
        let first = cell(probe.random() % 24, probe.random() % 24);
        let mut rng = Rng::new(seed);
        let game = Game::new(&mut rng);
        assert!(!game.game_over);
        assert_eq!(game.food, first);
        assert!(!game.snake.contains(&game.food));
        assert_eq!(rng.seed, probe.seed);
    }
}

#[test]
fn a_game_made_by_the_rules_can_always_be_updated() {
    let mut rng = Rng::new(3);
    let mut game = Game::new(&mut rng);
    assert!(game.can_update());
    game.food = cell(13, 12);
    assert!(game.can_update());
    game.update(&mut rng);
    game.set_direction(Direction::Down);
    for _ in 0..20 {
        assert!(game.can_update());
        game.update(&mut rng);
    }
    assert!(game.game_over);
    assert!(game.can_update());
    game.reset(&mut rng);
    assert!(game.can_update());
}

#[test]
fn a_snake_without_a_head_cannot_be_updated() {
    let mut rng = Rng::new(3);
    let mut game = Game::new(&mut rng);
    game.snake.clear();
    assert!(!game.can_update());
    game.game_over = true;
    assert!(!game.can_update());
}

#[test]
fn a_full_score_cannot_go_up() {
    let mut rng = Rng::new(3);
    let mut game = Game::new(&mut rng);
    game.score = 65535;
    game.food = cell(13, 12);
    assert!(!game.can_update());
    game.score = 65534;
    assert!(game.can_update());
    game.update(&mut rng);
    assert_eq!(game.score, 65535);
    // Away from the food, or at the end of the game, the score stays.
    game.food = cell(0, 0);
    assert!(game.can_update());
    game.update(&mut rng);
    assert_eq!(game.score, 65535);
    game.food = cell(15, 12);
    assert!(!game.can_update());
    game.game_over = true;
    assert!(game.can_update());
    game.update(&mut rng);
    assert_eq!(game.score, 65535);
    game.game_over = false;
    game.snake[0] = cell(23, 5);
    game.food = cell(24, 5);
    assert!(game.can_update());
    game.snake[0] = cell(5, 5);
    game.snake[1] = cell(6, 5);
    game.food = cell(6, 5);
    assert!(game.can_update());
}

#[test]
fn a_game_changed_by_hand_is_updated_by_the_same_rules() {
    let mut rng = Rng::new(3);
    let mut game = Game::new(&mut rng);
    let seed = rng.seed;
    // A snake that crosses itself and lies partly outside the grid.
    game.snake = vec![cell(5, 5), cell(30, 5), cell(5, 5), cell(4, 5)];
    game.score = 9;
    game.food = cell(0, 0);
    game.update(&mut rng);
    assert_eq!(game.snake, vec![cell(6, 5), cell(5, 5), cell(30, 5), cell(5, 5)]);
    assert_eq!(game.score, 9);
    assert!(!game.game_over);
    assert_eq!(rng.seed, seed);
    game.set_direction(Direction::Up);
    game.snake = vec![cell(5, 0)];
    game.update(&mut rng);
    assert!(game.game_over);
    assert_eq!(game.snake, vec![cell(5, 0)]);
    // A head outside the grid that moves back into it.
    game.game_over = false;
    game.direction = Direction::Left;
    game.snake = vec![cell(24, 7), cell(25, 7)];
    game.update(&mut rng);
    assert_eq!(game.snake, vec![cell(23, 7), cell(24, 7)]);
    assert!(!game.game_over);
    // The far end of the number range.
    game.direction = Direction::Right;
    game.snake = vec![cell(65535, 65535)];
    game.update(&mut rng);
    assert!(game.game_over);
    game.game_over = false;
    game.direction = Direction::Down;
    game.update(&mut rng);
    assert!(game.game_over);
    assert_eq!(game.snake, vec![cell(65535, 65535)]);
}
