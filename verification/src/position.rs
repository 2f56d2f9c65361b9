//! Grid coordinates and bounds-aware stepping.

use crate::direction::{Direction, InputEvent};
use vstd::prelude::*;

verus! {

/// A grid coordinate: `x` is the row, `y` the column.  A `Position` is an
/// immutable value; stepping computes a new one.
#[derive(Clone, Copy, Debug, PartialEq, Eq, Structural)]
pub struct Position {
    pub x: usize,
    pub y: usize,
}

/// Why a step produced no position.
#[derive(Clone, Copy, Debug, PartialEq, Eq, Structural)]
pub enum StepError {
    /// The move would leave the grid; fatal to the current game.
    HitBound,
    /// The input carried no recognizable direction.
    InvalidDirection,
}

/// Manhattan adjacency: `a` and `b` differ by exactly one in exactly one axis.
pub open spec fn adjacent(a: Position, b: Position) -> bool {
    ||| (a.x == b.x && (a.y + 1 == b.y || b.y + 1 == a.y))
    ||| (a.y == b.y && (a.x + 1 == b.x || b.x + 1 == a.x))
}

/// What stepping from `p` in direction `d` yields on a grid whose largest
/// row index is `x_bound` and largest column index is `y_bound`.
pub open spec fn step_result(
    p: Position,
    d: Direction,
    x_bound: usize,
    y_bound: usize,
) -> Result<Position, StepError> {
    match d {
        Direction::Up => if p.x == 0 {
            Err(StepError::HitBound)
        } else {
            Ok(Position { x: (p.x - 1) as usize, y: p.y })
        },
        Direction::Down => if p.x == x_bound {
            Err(StepError::HitBound)
        } else {
            Ok(Position { x: (p.x + 1) as usize, y: p.y })
        },
        Direction::Left => if p.y == 0 {
            Err(StepError::HitBound)
        } else {
            Ok(Position { x: p.x, y: (p.y - 1) as usize })
        },
        Direction::Right => if p.y == y_bound {
            Err(StepError::HitBound)
        } else {
            Ok(Position { x: p.x, y: (p.y + 1) as usize })
        },
    }
}

/// What `get_next` yields: directional input steps, anything else is
/// rejected as carrying no direction.
pub open spec fn next_result(
    p: Position,
    input: InputEvent,
    x_bound: usize,
    y_bound: usize,
) -> Result<Position, StepError> {
    match input {
        InputEvent::Key(d) => step_result(p, d, x_bound, y_bound),
        _ => Err(StepError::InvalidDirection),
    }
}

impl Position {
    /// The origin, row 0 and column 0.
    pub fn new() -> (p: Position)
        ensures
            p == (Position { x: 0, y: 0 }),
    {
        Position { x: 0, y: 0 }
    }

    /// Step one cell in direction `d`, failing with `HitBound` at the edge
    /// of the grid.  `x_bound` and `y_bound` are the largest usable indices.
    pub fn step(&self, d: Direction, x_bound: usize, y_bound: usize) -> (r: Result<
        Position,
        StepError,
    >)
        requires
            self.x <= x_bound,
            self.y <= y_bound,
        ensures
            r == step_result(*self, d, x_bound, y_bound),
    {
        match d {
            Direction::Up => {
                if self.x == 0 {
                    Err(StepError::HitBound)
                } else {
                    Ok(Position { x: self.x - 1, y: self.y })
                }
            },
            Direction::Down => {
                if self.x == x_bound {
                    Err(StepError::HitBound)
                } else {
                    Ok(Position { x: self.x + 1, y: self.y })
                }
            },
            Direction::Left => {
                if self.y == 0 {
                    Err(StepError::HitBound)
                } else {
                    Ok(Position { x: self.x, y: self.y - 1 })
                }
            },
            Direction::Right => {
                if self.y == y_bound {
                    Err(StepError::HitBound)
                } else {
                    Ok(Position { x: self.x, y: self.y + 1 })
                }
            },
        }
    }

    /// The position one polled input leads to: a directional key steps,
    /// any other input fails with `InvalidDirection`.
    pub fn get_next(&self, input: InputEvent, x_bound: usize, y_bound: usize) -> (r: Result<
        Position,
        StepError,
    >)
        requires
            self.x <= x_bound,
            self.y <= y_bound,
        ensures
            r == next_result(*self, input, x_bound, y_bound),
    {
        match input {
            InputEvent::Key(d) => self.step(d, x_bound, y_bound),
            _ => Err(StepError::InvalidDirection),
        }
    }
}

/// Law: from a position strictly interior to the grid, a step in any
/// direction succeeds, lands exactly one cell away in that direction,
/// and the result is Manhattan-adjacent to the start.
pub proof fn lemma_step_interior(p: Position, d: Direction, x_bound: usize, y_bound: usize)
    requires
        0 < p.x < x_bound,
        0 < p.y < y_bound,
    ensures
        step_result(p, d, x_bound, y_bound) is Ok,
        adjacent(p, step_result(p, d, x_bound, y_bound).unwrap()),
        step_result(p, d, x_bound, y_bound).unwrap() == match d {
            Direction::Up => Position { x: (p.x - 1) as usize, y: p.y },
            Direction::Down => Position { x: (p.x + 1) as usize, y: p.y },
            Direction::Left => Position { x: p.x, y: (p.y - 1) as usize },
            Direction::Right => Position { x: p.x, y: (p.y + 1) as usize },
        },
{
}

/// Law: at the edge of the grid, stepping outward fails with `HitBound`:
/// `Up` in row 0, `Down` in the last row, `Left` in column 0, `Right` in
/// the last column.
pub proof fn lemma_step_at_bound(p: Position, x_bound: usize, y_bound: usize)
    ensures
        p.x == 0 ==> step_result(p, Direction::Up, x_bound, y_bound) == Err::<
            Position,
            StepError,
        >(StepError::HitBound),
        p.x == x_bound ==> step_result(p, Direction::Down, x_bound, y_bound) == Err::<
            Position,
            StepError,
        >(StepError::HitBound),
        p.y == 0 ==> step_result(p, Direction::Left, x_bound, y_bound) == Err::<
            Position,
            StepError,
        >(StepError::HitBound),
        p.y == y_bound ==> step_result(p, Direction::Right, x_bound, y_bound) == Err::<
            Position,
            StepError,
        >(StepError::HitBound),
{
}

} // verus!
