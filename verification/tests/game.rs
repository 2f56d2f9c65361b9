use snake_game::{
    Cell, Direction, Game, GameHardness, GameStatus, InputEvent, Position, StepError, TickOutcome,
};
use std::collections::VecDeque;

/// Count the body cells on the board by reading every cell.
fn body_count(game: &Game) -> u32 {
    let mut n: u32 = 0;
    for x in 0..game.map_rows {
        for y in 0..game.map_cols {
            if game.cell(x, y) == Cell::Body {
                n += 1;
            }
        }
    }
    n
}

/// Read the whole board into one row-major vector.
fn board(game: &Game) -> Vec<Cell> {
    let mut cells: Vec<Cell> = Vec::new();
    for x in 0..game.map_rows {
        for y in 0..game.map_cols {
            cells.push(game.cell(x, y));
        }
    }
    cells
}

#[test]
fn new_game_layout() {
    let game = Game::new(5, 5);
    assert_eq!(game.status, GameStatus::Initialize);
    assert_eq!(game.map_rows, 5);
    assert_eq!(game.map_cols, 5);
    assert_eq!(game.score, 0);
    assert_eq!(game.length, 3);
    assert_eq!(game.food_time, 0);
    // The snake sits in row 3, columns 1 to 3, head rightmost.
    assert_eq!(game.cell(3, 3), Cell::Body);
    assert_eq!(game.cell(3, 2), Cell::Body);
    assert_eq!(game.cell(3, 1), Cell::Body);
    assert_eq!(body_count(&game), 3);
    assert_eq!(game.cell(3, 0), Cell::Blank);
    assert_eq!(game.cell(3, 4), Cell::Blank);
}

#[test]
fn new_game_clamps_small_dimensions() {
    let game = Game::new(0, 2);
    assert_eq!(game.map_rows, 5);
    assert_eq!(game.map_cols, 5);
}

#[test]
fn new_game_centers_the_snake() {
    let game = Game::new(7, 9);
    // Middle row 4, middle column 5.
    assert_eq!(game.cell(4, 5), Cell::Body);
    assert_eq!(game.cell(4, 4), Cell::Body);
    assert_eq!(game.cell(4, 3), Cell::Body);
    assert_eq!(body_count(&game), 3);
}

#[test]
fn start_moves_forward_only() {
    let mut game = Game::new(5, 5);
    game.start();
    assert_eq!(game.status, GameStatus::Running);
    game.start();
    assert_eq!(game.status, GameStatus::Running);
}

#[test]
fn ticks_do_nothing_before_start() {
    let mut game = Game::new(5, 5);
    let before = board(&game);
    assert!(!game.tick_prepare());
    assert_eq!(game.apply_input(InputEvent::Key(Direction::Up)), TickOutcome::Continue);
    assert_eq!(board(&game), before);
    assert_eq!(game.status, GameStatus::Initialize);
}

#[test]
fn eating_updates_score_length_and_cell() {
    let mut game = Game::new(5, 5);
    game.start();
    game.place_food(Position { x: 2, y: 3 });
    assert_eq!(game.cell(2, 3), Cell::Food);
    assert_eq!(game.food_time, 20);
    game.move_snake(Position { x: 2, y: 3 });
    assert_eq!(game.score, 1);
    assert_eq!(game.length, 4);
    assert_eq!(game.cell(2, 3), Cell::Body);
    assert_eq!(game.food_time, 0);
    assert_eq!(game.status, GameStatus::Running);
    // No food cell remains anywhere, and the tail was kept.
    for x in 0..5 {
        for y in 0..5 {
            assert_ne!(game.cell(x, y), Cell::Food);
        }
    }
    assert_eq!(game.cell(3, 1), Cell::Body);
    assert_eq!(body_count(&game), 4);
}

#[test]
fn collision_with_body_finishes() {
    let mut game = Game::new(5, 5);
    game.start();
    // Move the head onto the cell behind it, which holds the body and is
    // not the tail being vacated this tick.
    game.move_snake(Position { x: 3, y: 2 });
    assert_eq!(game.status, GameStatus::Finished);
    assert_eq!(game.score, 0);
    assert_eq!(game.length, 3);
}

#[test]
fn vacated_tail_becomes_blank() {
    let mut game = Game::new(5, 5);
    game.start();
    game.place_food(Position { x: 0, y: 0 });
    assert!(!game.tick_prepare());
    assert_eq!(game.apply_input(InputEvent::Key(Direction::Up)), TickOutcome::Continue);
    // The head advanced to (2,3) and the old tail cell (3,1) was vacated.
    assert_eq!(game.cell(2, 3), Cell::Body);
    assert_eq!(game.cell(3, 1), Cell::Blank);
    assert_eq!(game.length, 3);
    assert_eq!(body_count(&game), 3);
}

#[test]
fn eats_food_on_scripted_right() {
    let mut game = Game::new(5, 5);
    game.start();
    game.place_food(Position { x: 3, y: 4 });
    assert!(!game.tick_prepare());
    let out = game.apply_input(InputEvent::Key(Direction::Right));
    assert_eq!(out, TickOutcome::Continue);
    // Immediately after the tick that ate the food:
    assert_eq!(game.score, 1);
    assert_eq!(game.length, 4);
    assert_eq!(game.cell(3, 4), Cell::Body);
    assert_eq!(game.cell(3, 1), Cell::Body);
    assert_eq!(body_count(&game), 4);
}

#[test]
fn growth_invariant_over_scripted_ticks() {
    let mut game = Game::new(5, 5);
    game.start();
    game.place_food(Position { x: 1, y: 1 });
    let script = [
        Direction::Up,
        Direction::Up,
        Direction::Left,
        Direction::Left,
        Direction::Left,
        Direction::Down,
        Direction::Down,
    ];
    for (i, d) in script.iter().enumerate() {
        assert!(!game.tick_prepare());
        let out = game.apply_input(InputEvent::Key(*d));
        assert_eq!(out, TickOutcome::Continue);
        // The occupied-cell count equals the length on every tick, and the
        // length is the initial length plus the score.
        assert_eq!(body_count(&game), game.length);
        assert_eq!(game.length, 3 + game.score);
        if i == 3 {
            // The fourth tick steered onto the planted food at (1,1).
            assert_eq!(game.score, 1);
            assert_eq!(game.length, 4);
        }
    }
    assert_eq!(game.status, GameStatus::Running);
    assert!(game.score >= 1);
}

#[test]
fn wall_hit_finishes_and_freezes() {
    let mut game = Game::new(5, 5);
    game.start();
    game.place_food(Position { x: 0, y: 0 });
    assert!(!game.tick_prepare());
    assert_eq!(game.apply_input(InputEvent::Key(Direction::Right)), TickOutcome::Continue);
    assert!(!game.tick_prepare());
    // The head stands in the last column; another step right leaves the
    // grid and loses the game.
    assert_eq!(game.apply_input(InputEvent::Key(Direction::Right)), TickOutcome::GameOver);
    assert_eq!(game.status, GameStatus::Finished);
    // No further tick mutates the grid.
    let before = board(&game);
    assert!(!game.tick_prepare());
    assert_eq!(game.apply_input(InputEvent::Key(Direction::Up)), TickOutcome::GameOver);
    assert_eq!(board(&game), before);
    assert_eq!(game.status, GameStatus::Finished);
}

#[test]
fn reversal_input_is_ignored_in_game() {
    let mut game = Game::new(5, 5);
    game.start();
    game.place_food(Position { x: 0, y: 0 });
    assert!(!game.tick_prepare());
    // The last accepted direction starts as Right; Left is its reversal,
    // so the snake keeps moving right.
    assert_eq!(game.apply_input(InputEvent::Key(Direction::Left)), TickOutcome::Continue);
    assert_eq!(game.last_dir, Direction::Right);
    assert_eq!(game.cell(3, 4), Cell::Body);
    assert_eq!(game.cell(3, 2), Cell::Body);
    assert_eq!(game.cell(3, 1), Cell::Blank);
}

#[test]
fn quit_leaves_state_untouched() {
    let mut game = Game::new(5, 5);
    game.start();
    game.place_food(Position { x: 0, y: 0 });
    let before = board(&game);
    let out = game.apply_input(InputEvent::Quit);
    assert_eq!(out, TickOutcome::Quit);
    assert_eq!(game.status, GameStatus::Running);
    assert_eq!(board(&game), before);
}

#[test]
fn food_refresh_places_one_food_on_a_blank_cell() {
    let mut game = Game::new(5, 5);
    game.start();
    assert_eq!(game.food_time, 0);
    assert!(!game.tick_prepare());
    // The countdown restarted at 2 * (5 + 5) and the clock then took one.
    assert_eq!(game.food_time, 19);
    let mut food_cells: u32 = 0;
    for x in 0..5 {
        for y in 0..5 {
            if game.cell(x, y) == Cell::Food {
                food_cells += 1;
                assert_eq!(Position { x, y }, game.food);
            }
        }
    }
    assert_eq!(food_cells, 1);
    assert_eq!(body_count(&game), 3);
}

#[test]
fn full_board_wins() {
    // A hand-built legal state with the snake filling the whole board:
    // the rows are traversed boustrophedon, so consecutive segments stay
    // adjacent.
    let mut snake: VecDeque<Position> = VecDeque::new();
    for x in 0..5usize {
        if x % 2 == 0 {
            for y in 0..5usize {
                snake.push_back(Position { x, y });
            }
        } else {
            for y in (0..5usize).rev() {
                snake.push_back(Position { x, y });
            }
        }
    }
    let mut game = Game {
        map: vec![Cell::Body; 25],
        food: Position { x: 0, y: 0 },
        food_time: 5,
        status: GameStatus::Running,
        timestamp: 0,
        score: 22,
        length: 25,
        snake,
        ate: false,
        last_dir: Direction::Right,
        hardness: GameHardness::Normal,
        map_cols: 5,
        map_rows: 5,
    };
    assert!(game.tick_prepare());
    assert_eq!(game.status, GameStatus::Finished);
    assert_eq!(game.score, 22);
}

#[test]
fn wait_time_shrinks_with_score() {
    let mut game = Game::new(5, 5);
    game.start();
    assert_eq!(game.wait_time(), 25);
    game.place_food(Position { x: 3, y: 4 });
    game.move_snake(Position { x: 3, y: 4 });
    assert_eq!(game.score, 1);
    assert_eq!(game.wait_time(), 24);
}

#[test]
fn snapshot_marks_the_head_and_leaves_the_game_alone() {
    let mut game = Game::new(5, 5);
    game.start();
    let snap = game.snapshot();
    assert_eq!(snap.len(), 25);
    assert_eq!(snap[3 * 5 + 3], Cell::Head);
    assert_eq!(snap[3 * 5 + 2], Cell::Body);
    assert_eq!(snap[3 * 5 + 1], Cell::Body);
    // The game's own grid never holds the marker.
    assert_eq!(game.cell(3, 3), Cell::Body);
    for x in 0..5 {
        for y in 0..5 {
            assert_ne!(game.cell(x, y), Cell::Head);
            if !(x == 3 && y == 3) {
                assert_eq!(snap[x * 5 + y], game.cell(x, y));
            }
        }
    }
}

#[test]
fn get_next_pos_steps_from_the_head() {
    let mut game = Game::new(5, 5);
    game.start();
    assert_eq!(
        game.get_next_pos(InputEvent::Key(Direction::Up)),
        Ok(Position { x: 2, y: 3 })
    );
    assert_eq!(
        game.get_next_pos(InputEvent::Key(Direction::Right)),
        Ok(Position { x: 3, y: 4 })
    );
    assert_eq!(game.get_next_pos(InputEvent::Other), Err(StepError::InvalidDirection));
}
