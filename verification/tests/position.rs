use snake_game::{Direction, InputEvent, Position, StepError};

#[test]
fn get_next_up() {
    let pos = Position { x: 3, y: 3 };
    let event = InputEvent::Key(Direction::Up);
    let res = pos.get_next(event, 5, 5);
    assert_eq!(res, Ok(Position { x: 2, y: 3 }));
}

#[test]
fn get_next_down() {
    let pos = Position { x: 3, y: 3 };
    let event = InputEvent::Key(Direction::Down);
    let res = pos.get_next(event, 5, 5);
    assert_eq!(res, Ok(Position { x: 4, y: 3 }));
}

#[test]
fn get_next_left() {
    let pos = Position { x: 3, y: 3 };
    let event = InputEvent::Key(Direction::Left);
    let res = pos.get_next(event, 5, 5);
    assert_eq!(res, Ok(Position { x: 3, y: 2 }));
}

#[test]
fn get_next_right() {
    let pos = Position { x: 3, y: 3 };
    let event = InputEvent::Key(Direction::Right);
    let res = pos.get_next(event, 5, 5);
    assert_eq!(res, Ok(Position { x: 3, y: 4 }));
}

#[test]
fn get_next_up_fail() {
    let pos = Position { x: 0, y: 0 };
    let event = InputEvent::Key(Direction::Up);
    let res = pos.get_next(event, 0, 0);
    assert_eq!(res, Err(StepError::HitBound));
}

#[test]
fn get_next_down_fail() {
    let pos = Position { x: 0, y: 0 };
    let event = InputEvent::Key(Direction::Down);
    let res = pos.get_next(event, 0, 0);
    assert_eq!(res, Err(StepError::HitBound));
}

#[test]
fn get_next_left_fail() {
    let pos = Position { x: 0, y: 0 };
    let event = InputEvent::Key(Direction::Left);
    let res = pos.get_next(event, 0, 0);
    assert_eq!(res, Err(StepError::HitBound));
}

#[test]
fn get_next_right_fail() {
    let pos = Position { x: 0, y: 0 };
    let event = InputEvent::Key(Direction::Right);
    let res = pos.get_next(event, 0, 0);
    assert_eq!(res, Err(StepError::HitBound));
}

#[test]
fn position_new_is_origin() {
    assert_eq!(Position::new(), Position { x: 0, y: 0 });
}

#[test]
fn step_from_interior_moves_one_cell_in_each_direction() {
    let pos = Position { x: 2, y: 2 };
    assert_eq!(pos.step(Direction::Up, 4, 4), Ok(Position { x: 1, y: 2 }));
    assert_eq!(pos.step(Direction::Down, 4, 4), Ok(Position { x: 3, y: 2 }));
    assert_eq!(pos.step(Direction::Left, 4, 4), Ok(Position { x: 2, y: 1 }));
    assert_eq!(pos.step(Direction::Right, 4, 4), Ok(Position { x: 2, y: 3 }));
}

#[test]
fn step_fails_with_hit_bound_only_at_the_edges() {
    // Up in row 0, Down in the last row, Left in column 0, Right in the
    // last column.
    let corner = Position { x: 0, y: 0 };
    assert_eq!(corner.step(Direction::Up, 4, 4), Err(StepError::HitBound));
    assert_eq!(corner.step(Direction::Left, 4, 4), Err(StepError::HitBound));
    assert_eq!(corner.step(Direction::Down, 4, 4), Ok(Position { x: 1, y: 0 }));
    assert_eq!(corner.step(Direction::Right, 4, 4), Ok(Position { x: 0, y: 1 }));
    let far = Position { x: 4, y: 4 };
    assert_eq!(far.step(Direction::Down, 4, 4), Err(StepError::HitBound));
    assert_eq!(far.step(Direction::Right, 4, 4), Err(StepError::HitBound));
    assert_eq!(far.step(Direction::Up, 4, 4), Ok(Position { x: 3, y: 4 }));
    assert_eq!(far.step(Direction::Left, 4, 4), Ok(Position { x: 4, y: 3 }));
}

#[test]
fn non_directional_input_is_an_invalid_direction() {
    let pos = Position { x: 2, y: 2 };
    assert_eq!(pos.get_next(InputEvent::Other, 4, 4), Err(StepError::InvalidDirection));
    assert_eq!(pos.get_next(InputEvent::Quit, 4, 4), Err(StepError::InvalidDirection));
}
