use snake_game::direction::SnakeDirection;
use snake_game::game::{grid_is_valid, Game, INITIAL_TICK_RATE};
use snake_game::grid::{Cell, GRID_X_SIZE, GRID_Y_SIZE};
use snake_game::model::{GameState, MIN_TICK_RATE};

fn cell(x: i32, y: i32) -> Cell {
    Cell { x, y }
}

fn cells(points: &[(i32, i32)]) -> Vec<Cell> {
    points.iter().map(|&(x, y)| cell(x, y)).collect()
}

/// A 10 by 10 game with the food on `food`, which must be free.
fn game_with_food(food: (i32, i32), tick_rate: u32) -> Game {
    assert!(grid_is_valid(10, 10));
    let game = Game::with_food_candidates(10, 10, tick_rate, &cells(&[food]));
    assert_eq!(game.food(), cell(food.0, food.1));
    game
}

/// Everything a front end can read, for comparing two states.
fn snapshot(game: &Game) -> (Vec<Cell>, SnakeDirection, Cell, GameState, u32, u32, u32) {
    (
        game.snake(),
        game.direction(),
        game.food(),
        game.state(),
        game.score(),
        game.high_score(),
        game.tick_rate(),
    )
}

fn is_interior(c: Cell, width: i32, height: i32) -> bool {
    1 <= c.x && c.x <= width - 2 && 1 <= c.y && c.y <= height - 2
}

fn touching(a: Cell, b: Cell) -> bool {
    (a.x - b.x).abs() + (a.y - b.y).abs() == 1
}

fn assert_sound(game: &Game) {
    let snake = game.snake();
    assert!(snake.len() >= 3);
    for c in &snake {
        assert!(0 <= c.x && c.x < game.width() && 0 <= c.y && c.y < game.height());
    }
    for pair in snake.windows(2) {
        assert!(touching(pair[0], pair[1]));
    }
    for i in 0..snake.len() {
        for j in i + 1..snake.len() {
            assert_ne!(snake[i], snake[j]);
        }
    }
    assert!(is_interior(game.food(), game.width(), game.height()));
    assert!(!snake.contains(&game.food()));
    assert!(game.score() <= game.high_score());
    assert_eq!(snake.len() as u32, game.score() + 3);
}

#[test]
fn new_game_opens_paused_with_three_cells() {
    assert!(grid_is_valid(GRID_X_SIZE, GRID_Y_SIZE));
    let game = Game::new(GRID_X_SIZE, GRID_Y_SIZE, INITIAL_TICK_RATE);
    assert_eq!(game.snake(), cells(&[(3, 1), (2, 1), (1, 1)]));
    assert_eq!(game.head(), cell(3, 1));
    assert_eq!(game.direction(), SnakeDirection::Right);
    assert_eq!(game.state(), GameState::Paused);
    assert_eq!(game.score(), 0);
    assert_eq!(game.high_score(), 0);
    assert_eq!(game.tick_rate(), 15);
    assert_eq!(game.width(), 35);
    assert_eq!(game.height(), 25);
    assert_sound(&game);
}

#[test]
fn new_game_never_puts_food_on_the_snake() {
    for _ in 0..200 {
        let game = Game::new(6, 4, 10);
        assert_sound(&game);
    }
}

#[test]
fn only_free_cell_gets_the_food() {
    // On a 6 by 3 field the interior is one row of four cells, three under the snake.
    assert!(grid_is_valid(6, 3));
    for _ in 0..50 {
        let game = Game::new(6, 3, 10);
        assert_eq!(game.food(), cell(4, 1));
    }
}

#[test]
fn grid_validity() {
    assert!(grid_is_valid(35, 25));
    assert!(grid_is_valid(40, 30));
    assert!(grid_is_valid(4, 4));
    assert!(grid_is_valid(6, 3));
    assert!(!grid_is_valid(5, 3));
    assert!(!grid_is_valid(3, 5));
    assert!(!grid_is_valid(4, 2));
    assert!(!grid_is_valid(100, 2));
    assert!(!grid_is_valid(0, 0));
    assert!(!grid_is_valid(-5, 10));
    assert!(!grid_is_valid(10, -5));
    assert!(grid_is_valid(65535, 65537));
    assert!(!grid_is_valid(65536, 65536));
    assert!(!grid_is_valid(i32::MAX, i32::MAX));
    assert!(!grid_is_valid(i32::MIN, i32::MIN));
}

#[test]
fn eating_grows_the_snake_and_scores() {
    let mut game = game_with_food((4, 1), 15);
    assert_eq!(game.snake(), cells(&[(3, 1), (2, 1), (1, 1)]));
    assert_eq!(game.direction(), SnakeDirection::Right);
    game.toggle_pause();
    assert!(game.needs_food());
    game.next_tick_with(&cells(&[(5, 5)]));
    assert_eq!(game.snake(), cells(&[(4, 1), (3, 1), (2, 1), (1, 1)]));
    assert_eq!(game.score(), 1);
    assert_eq!(game.high_score(), 1);
    assert_eq!(game.food(), cell(5, 5));
    assert_eq!(game.state(), GameState::Playing);
    assert_eq!(game.tick_rate(), 15);
    assert_sound(&game);
}

#[test]
fn eating_relocates_food_to_a_free_cell() {
    for _ in 0..100 {
        let mut game = game_with_food((4, 1), 15);
        game.toggle_pause();
        game.next_tick();
        assert_eq!(game.snake(), cells(&[(4, 1), (3, 1), (2, 1), (1, 1)]));
        assert_eq!(game.score(), 1);
        assert_ne!(game.food(), cell(4, 1));
        assert_sound(&game);
    }
}

#[test]
fn plain_step_keeps_length_and_food() {
    let mut game = game_with_food((7, 7), 15);
    game.toggle_pause();
    assert!(!game.needs_food());
    game.next_tick();
    assert_eq!(game.snake(), cells(&[(4, 1), (3, 1), (2, 1)]));
    assert_eq!(game.food(), cell(7, 7));
    assert_eq!(game.score(), 0);
    game.move_down();
    game.next_tick_with(&cells(&[(2, 2)]));
    assert_eq!(game.snake(), cells(&[(4, 2), (4, 1), (3, 1)]));
    assert_eq!(game.food(), cell(7, 7));
    assert_sound(&game);
}

#[test]
fn taken_candidates_are_passed_over() {
    let mut game = game_with_food((4, 1), 15);
    game.toggle_pause();
    // On the grown snake, on the border, off the field, then a free interior cell.
    game.next_tick_with(&cells(&[(4, 1), (2, 1), (0, 5), (9, 9), (-3, 4), (40, 2), (6, 3), (7, 7)]));
    assert_eq!(game.food(), cell(6, 3));
}

#[test]
fn without_free_candidate_food_goes_to_first_free_cell() {
    let mut game = game_with_food((4, 1), 15);
    game.toggle_pause();
    game.next_tick_with(&cells(&[(1, 1), (0, 0)]));
    // Row 1 is read first: (1,1) to (4,1) lie under the snake.
    assert_eq!(game.food(), cell(5, 1));
    let mut game = game_with_food((4, 1), 15);
    game.toggle_pause();
    game.next_tick_with(&[]);
    assert_eq!(game.food(), cell(5, 1));
}

#[test]
fn opening_without_candidates_puts_food_on_first_free_cell() {
    let game = Game::with_food_candidates(10, 10, 15, &[]);
    assert_eq!(game.food(), cell(4, 1));
    let game = Game::with_food_candidates(5, 4, 15, &cells(&[(3, 1), (4, 2)]));
    // (3,1) is the head, (4,2) lies on the border; row 1 is full, so row 2 starts.
    assert_eq!(game.food(), cell(1, 2));
}

/// Walks the opening snake to the left wall: the head ends on (0, 1), heading left.
fn walk_to_left_wall(game: &mut Game) {
    let far = cells(&[(8, 8)]);
    game.move_down();
    game.next_tick_with(&far);
    game.move_left();
    game.next_tick_with(&far);
    game.next_tick_with(&far);
    game.move_up();
    game.next_tick_with(&far);
    game.move_left();
    game.next_tick_with(&far);
}

#[test]
fn leaving_the_field_resets_the_game() {
    let mut game = game_with_food((8, 8), 15);
    game.toggle_pause();
    walk_to_left_wall(&mut game);
    assert_eq!(game.snake(), cells(&[(0, 1), (1, 1), (1, 2)]));
    assert_eq!(game.direction(), SnakeDirection::Left);
    assert_eq!(game.state(), GameState::Playing);
    assert!(game.needs_food());
    game.next_tick_with(&cells(&[(6, 6)]));
    assert_eq!(game.snake(), cells(&[(3, 1), (2, 1), (1, 1)]));
    assert_eq!(game.direction(), SnakeDirection::Right);
    assert_eq!(game.state(), GameState::Paused);
    assert_eq!(game.score(), 0);
    assert_eq!(game.tick_rate(), 15);
    assert_eq!(game.food(), cell(6, 6));
    assert_sound(&game);
}

#[test]
fn leaving_the_field_resets_the_game_with_random_food() {
    let mut game = game_with_food((8, 8), 15);
    game.toggle_pause();
    walk_to_left_wall(&mut game);
    game.next_tick();
    assert_eq!(game.snake(), cells(&[(3, 1), (2, 1), (1, 1)]));
    assert_eq!(game.state(), GameState::Paused);
    assert_eq!(game.score(), 0);
    assert_sound(&game);
}

#[test]
fn every_wall_ends_the_round() {
    // Top: the head starts in row 1, so two steps up leave the field.
    let mut game = game_with_food((8, 8), 15);
    game.toggle_pause();
    game.move_up();
    game.next_tick();
    assert_eq!(game.head(), cell(3, 0));
    assert_eq!(game.state(), GameState::Playing);
    game.next_tick();
    assert_eq!(game.state(), GameState::Paused);
    assert_eq!(game.head(), cell(3, 1));
    // Right: six steps reach column 9, the seventh leaves.
    let mut game = game_with_food((8, 8), 15);
    game.toggle_pause();
    for _ in 0..6 {
        game.next_tick();
        assert_eq!(game.state(), GameState::Playing);
    }
    assert_eq!(game.head(), cell(9, 1));
    game.next_tick();
    assert_eq!(game.state(), GameState::Paused);
    // Bottom: eight steps reach row 9, the ninth leaves.
    let mut game = game_with_food((8, 8), 15);
    game.toggle_pause();
    game.move_down();
    for _ in 0..8 {
        game.next_tick();
        assert_eq!(game.state(), GameState::Playing);
    }
    assert_eq!(game.head(), cell(3, 9));
    game.next_tick();
    assert_eq!(game.state(), GameState::Paused);
}

/// Eats two pieces of food on the way right: five cells, head on (5, 1).
fn grow_to_five(game: &mut Game) {
    game.next_tick_with(&cells(&[(5, 1)]));
    game.next_tick_with(&cells(&[(8, 8)]));
    assert_eq!(game.snake(), cells(&[(5, 1), (4, 1), (3, 1), (2, 1), (1, 1)]));
    assert_eq!(game.score(), 2);
}

#[test]
fn running_into_itself_resets_the_game() {
    let mut game = game_with_food((4, 1), 15);
    game.toggle_pause();
    grow_to_five(&mut game);
    let far = cells(&[(8, 8)]);
    game.move_down();
    game.next_tick_with(&far);
    game.move_left();
    game.next_tick_with(&far);
    assert_eq!(game.snake(), cells(&[(4, 2), (5, 2), (5, 1), (4, 1), (3, 1)]));
    // (4, 1) is part of the body and not the cell behind the head: the turn is taken.
    game.move_up();
    assert_eq!(game.direction(), SnakeDirection::Up);
    game.next_tick_with(&cells(&[(7, 3)]));
    assert_eq!(game.snake(), cells(&[(3, 1), (2, 1), (1, 1)]));
    assert_eq!(game.state(), GameState::Paused);
    assert_eq!(game.direction(), SnakeDirection::Right);
    assert_eq!(game.score(), 0);
    assert_eq!(game.high_score(), 2);
    assert_eq!(game.food(), cell(7, 3));
    assert_sound(&game);
}

#[test]
fn head_may_follow_the_tail() {
    let mut game = game_with_food((4, 1), 15);
    game.toggle_pause();
    let far = cells(&[(8, 8)]);
    game.next_tick_with(&far);
    assert_eq!(game.snake(), cells(&[(4, 1), (3, 1), (2, 1), (1, 1)]));
    game.move_down();
    game.next_tick_with(&far);
    game.move_left();
    game.next_tick_with(&far);
    assert_eq!(game.snake(), cells(&[(3, 2), (4, 2), (4, 1), (3, 1)]));
    game.move_up();
    assert!(!game.needs_food());
    game.next_tick_with(&far);
    // The tail left (3, 1) on the same tick, so the head may enter it.
    assert_eq!(game.snake(), cells(&[(3, 1), (3, 2), (4, 2), (4, 1)]));
    assert_eq!(game.state(), GameState::Playing);
    assert_eq!(game.score(), 1);
    assert_sound(&game);
}

#[test]
fn filling_the_interior_ends_the_round() {
    let mut game = Game::with_food_candidates(6, 3, 9, &[]);
    assert_eq!(game.food(), cell(4, 1));
    game.toggle_pause();
    assert!(game.needs_food());
    game.next_tick();
    // The snake ate the last free interior cell: the point counts, the round is over.
    assert_eq!(game.snake(), cells(&[(3, 1), (2, 1), (1, 1)]));
    assert_eq!(game.food(), cell(4, 1));
    assert_eq!(game.state(), GameState::Paused);
    assert_eq!(game.score(), 0);
    assert_eq!(game.high_score(), 1);
    assert_eq!(game.tick_rate(), 9);
    assert_sound(&game);
}

#[test]
fn reversal_is_ignored() {
    let mut game = game_with_food((8, 8), 15);
    assert_eq!(game.direction(), SnakeDirection::Right);
    game.move_left();
    assert_eq!(game.direction(), SnakeDirection::Right);
    game.move_right();
    assert_eq!(game.direction(), SnakeDirection::Right);
    game.move_up();
    assert_eq!(game.direction(), SnakeDirection::Up);
    // The body still lies to the left of the head: left stays a reversal.
    game.move_left();
    assert_eq!(game.direction(), SnakeDirection::Up);
    game.move_down();
    assert_eq!(game.direction(), SnakeDirection::Down);
    game.toggle_pause();
    game.next_tick();
    assert_eq!(game.head(), cell(3, 2));
    // Now the body lies above the head.
    game.move_up();
    assert_eq!(game.direction(), SnakeDirection::Down);
    game.move_left();
    assert_eq!(game.direction(), SnakeDirection::Left);
    game.move_right();
    assert_eq!(game.direction(), SnakeDirection::Right);
}

#[test]
fn turning_back_after_a_step_is_ignored() {
    let turns = [
        SnakeDirection::Down,
        SnakeDirection::Right,
        SnakeDirection::Down,
        SnakeDirection::Left,
        SnakeDirection::Up,
    ];
    let mut game = game_with_food((8, 8), 15);
    game.toggle_pause();
    for dir in turns {
        match dir {
            SnakeDirection::Up => game.move_up(),
            SnakeDirection::Down => game.move_down(),
            SnakeDirection::Left => game.move_left(),
            SnakeDirection::Right => game.move_right(),
        }
        assert_eq!(game.direction(), dir);
        game.next_tick();
        assert_eq!(game.state(), GameState::Playing);
        match dir {
            SnakeDirection::Down => game.move_up(),
            SnakeDirection::Up => game.move_down(),
            SnakeDirection::Right => game.move_left(),
            SnakeDirection::Left => game.move_right(),
        }
        assert_eq!(game.direction(), dir);
    }
}

#[test]
fn steering_works_while_paused_and_is_idempotent() {
    let mut game = game_with_food((8, 8), 15);
    let before = snapshot(&game);
    game.move_down();
    game.move_down();
    assert_eq!(game.direction(), SnakeDirection::Down);
    let after = snapshot(&game);
    assert_eq!(after.0, before.0);
    assert_eq!(after.2, before.2);
    assert_eq!(after.3, before.3);
    assert_eq!((after.4, after.5, after.6), (before.4, before.5, before.6));
}

#[test]
fn toggle_pause_twice_restores_the_state() {
    let mut game = game_with_food((8, 8), 15);
    let before = snapshot(&game);
    game.toggle_pause();
    assert_eq!(game.state(), GameState::Playing);
    game.toggle_pause();
    assert_eq!(game.state(), GameState::Paused);
    assert_eq!(snapshot(&game), before);
    game.toggle_pause();
    game.next_tick();
    let running = snapshot(&game);
    game.toggle_pause();
    game.toggle_pause();
    assert_eq!(snapshot(&game), running);
}

#[test]
fn paused_game_ignores_ticks_and_updates() {
    let mut game = game_with_food((4, 1), 1);
    let before = snapshot(&game);
    assert!(!game.needs_food());
    for _ in 0..20 {
        game.next_tick();
        game.next_tick_with(&cells(&[(5, 5)]));
        game.update();
        assert!(!game.tick_due());
    }
    assert_eq!(snapshot(&game), before);
    // Nothing was counted while paused: with tick rate 3 the third update moves.
    let mut game = game_with_food((8, 8), 3);
    for _ in 0..7 {
        game.update();
    }
    game.toggle_pause();
    game.update();
    game.update();
    assert_eq!(game.head(), cell(3, 1));
    game.update();
    assert_eq!(game.head(), cell(4, 1));
}

#[test]
fn speed_rises_every_third_point() {
    let mut game = game_with_food((4, 1), 15);
    game.toggle_pause();
    game.next_tick_with(&cells(&[(5, 1)]));
    assert_eq!((game.score(), game.tick_rate()), (1, 15));
    game.next_tick_with(&cells(&[(6, 1)]));
    assert_eq!((game.score(), game.tick_rate()), (2, 15));
    game.next_tick_with(&cells(&[(7, 1)]));
    assert_eq!((game.score(), game.tick_rate()), (3, 14));
    game.next_tick_with(&cells(&[(8, 1)]));
    assert_eq!((game.score(), game.tick_rate()), (4, 14));
    game.next_tick_with(&cells(&[(8, 8)]));
    assert_eq!((game.score(), game.tick_rate()), (5, 14));
    assert_eq!(game.high_score(), 5);
    assert_eq!(game.snake().len(), 8);
    assert_sound(&game);
}

/// Eats `points` pieces of food in a 40 by 30 field, going back and forth along rows.
fn eat(game: &mut Game, points: u32) {
    let start = game.score();
    let mut eaten = 0;
    while eaten < points {
        let head = game.head();
        let next = match game.direction() {
            SnakeDirection::Right if head.x == 38 => {
                game.move_down();
                cell(head.x, head.y + 1)
            },
            SnakeDirection::Left if head.x == 1 => {
                game.move_down();
                cell(head.x, head.y + 1)
            },
            SnakeDirection::Down if head.x == 38 => {
                game.move_left();
                cell(head.x - 1, head.y)
            },
            SnakeDirection::Down => {
                game.move_right();
                cell(head.x + 1, head.y)
            },
            SnakeDirection::Right => cell(head.x + 1, head.y),
            SnakeDirection::Left => cell(head.x - 1, head.y),
            SnakeDirection::Up => unreachable!(),
        };
        assert_eq!(game.food(), next);
        let after = match game.direction() {
            SnakeDirection::Right if next.x == 38 => cell(next.x, next.y + 1),
            SnakeDirection::Left if next.x == 1 => cell(next.x, next.y + 1),
            SnakeDirection::Down if next.x == 38 => cell(next.x - 1, next.y),
            SnakeDirection::Down => cell(next.x + 1, next.y),
            SnakeDirection::Right => cell(next.x + 1, next.y),
            SnakeDirection::Left => cell(next.x - 1, next.y),
            SnakeDirection::Up => unreachable!(),
        };
        game.next_tick_with(&vec![after]);
        eaten += 1;
        assert_eq!(game.score(), start + eaten);
    }
}

#[test]
fn speed_stops_at_the_floor() {
    assert!(grid_is_valid(40, 30));
    let mut game = Game::with_food_candidates(40, 30, 7, &cells(&[(4, 1)]));
    game.toggle_pause();
    let mut last = game.tick_rate();
    for points in 1..=30 {
        eat(&mut game, 1);
        assert_eq!(game.score(), points);
        assert!(game.tick_rate() <= last);
        assert!(game.tick_rate() >= MIN_TICK_RATE);
        last = game.tick_rate();
        let expected = match points {
            0..=2 => 7,
            3..=5 => 6,
            _ => 5,
        };
        assert_eq!(game.tick_rate(), expected);
        assert_sound(&game);
    }
    assert_eq!(game.score(), 30);
    assert_eq!(game.high_score(), 30);
    assert_eq!(game.snake().len(), 33);
}

#[test]
fn opening_rate_below_the_floor_stays() {
    let mut game = Game::with_food_candidates(40, 30, 3, &cells(&[(4, 1)]));
    game.toggle_pause();
    eat(&mut game, 9);
    assert_eq!(game.tick_rate(), 3);
    let mut game = Game::with_food_candidates(40, 30, 5, &cells(&[(4, 1)]));
    game.toggle_pause();
    eat(&mut game, 9);
    assert_eq!(game.tick_rate(), 5);
    let mut game = Game::with_food_candidates(40, 30, 0, &cells(&[(4, 1)]));
    game.toggle_pause();
    eat(&mut game, 3);
    assert_eq!(game.tick_rate(), 0);
}

#[test]
fn high_score_survives_rounds_and_never_falls() {
    let mut game = game_with_food((4, 1), 15);
    game.toggle_pause();
    let mut best = 0;
    let mut check = |game: &Game| {
        assert!(game.high_score() >= best);
        best = game.high_score();
    };
    game.next_tick_with(&cells(&[(5, 1)]));
    check(&game);
    game.next_tick_with(&cells(&[(6, 1)]));
    check(&game);
    game.next_tick_with(&cells(&[(8, 8)]));
    check(&game);
    assert_eq!((game.score(), game.high_score(), game.tick_rate()), (3, 3, 14));
    // Run into the right wall.
    for _ in 0..4 {
        game.next_tick_with(&cells(&[(4, 1)]));
        check(&game);
    }
    assert_eq!(game.state(), GameState::Paused);
    assert_eq!((game.score(), game.high_score(), game.tick_rate()), (0, 3, 15));
    assert_eq!(game.food(), cell(4, 1));
    // One point in the next round does not touch the high score.
    game.toggle_pause();
    game.next_tick_with(&cells(&[(8, 8)]));
    check(&game);
    assert_eq!((game.score(), game.high_score()), (1, 3));
}

#[test]
fn update_moves_the_snake_on_every_tick_rate_th_call() {
    let mut game = game_with_food((8, 8), 3);
    game.toggle_pause();
    let mut heads = Vec::new();
    for _ in 0..9 {
        game.update();
        heads.push(game.head().x);
    }
    assert_eq!(heads, vec![3, 3, 4, 4, 4, 5, 5, 5, 6]);
}

#[test]
fn tick_due_counts_updates() {
    let mut game = game_with_food((8, 8), 4);
    game.toggle_pause();
    let due: Vec<bool> = (0..9).map(|_| game.tick_due()).collect();
    assert_eq!(due, vec![false, false, false, true, false, false, false, true, false]);
    let mut game = game_with_food((8, 8), 1);
    game.toggle_pause();
    assert!(game.tick_due());
    assert!(game.tick_due());
    let mut game = game_with_food((8, 8), 0);
    game.toggle_pause();
    assert!(game.tick_due());
    assert!(game.tick_due());
}

#[test]
fn update_with_tick_rate_one_moves_every_call() {
    let mut game = game_with_food((8, 8), 1);
    game.toggle_pause();
    game.update();
    assert_eq!(game.head(), cell(4, 1));
    game.update();
    assert_eq!(game.head(), cell(5, 1));
}

#[test]
fn speeding_up_shortens_the_wait_between_ticks() {
    let mut game = game_with_food((4, 1), 6);
    game.toggle_pause();
    game.next_tick_with(&cells(&[(5, 1)]));
    game.next_tick_with(&cells(&[(6, 1)]));
    game.next_tick_with(&cells(&[(8, 8)]));
    assert_eq!(game.tick_rate(), 5);
    let due: Vec<bool> = (0..10).map(|_| game.tick_due()).collect();
    assert_eq!(due, vec![false, false, false, false, true, false, false, false, false, true]);
}

#[test]
fn random_play_keeps_the_game_sound() {
    let mut game = Game::new(12, 9, 6);
    let mut best = 0;
    let mut seed: u32 = 12345;
    for _ in 0..5000 {
        seed = seed.wrapping_mul(1664525).wrapping_add(1013904223);
        let before = snapshot(&game);
        match (seed >> 24) % 8 {
            0 => game.move_up(),
            1 => game.move_down(),
            2 => game.move_left(),
            3 => game.move_right(),
            4 => game.toggle_pause(),
            5 => game.update(),
            _ => game.next_tick(),
        }
        assert_sound(&game);
        assert!(game.high_score() >= best);
        best = game.high_score();
        assert!(game.tick_rate() <= 6 && game.tick_rate() >= 5);
        if game.state() == GameState::Paused && before.3 == GameState::Paused {
            assert_eq!(game.snake(), before.0);
            assert_eq!(game.food(), before.2);
        }
        if game.snake().len() != 3 || before.0.len() == 3 {
            // No round ended: the snake kept its length or grew by one.
            assert!(game.snake().len() == before.0.len() || game.snake().len() == before.0.len() + 1);
            assert!(game.tick_rate() <= before.6);
        }
    }
}
