//! Directions, input events, and the direction-lock input policy.

use vstd::prelude::*;

verus! {

/// One of the four directions the snake can be steered in.
#[derive(Clone, Copy, Debug, PartialEq, Eq, Structural)]
pub enum Direction {
    Up,
    Down,
    Left,
    Right,
}

/// One polled input, reduced to what the game rules care about.
///
/// The terminal layer maps whatever it reads to this type: an arrow key
/// becomes `Key`, the quit key becomes `Quit`, and any other key, any
/// non-key event, or a poll that timed out becomes `Other`.
#[derive(Clone, Copy, Debug, PartialEq, Eq, Structural)]
pub enum InputEvent {
    /// A directional key press.
    Key(Direction),
    /// The player asked to leave the game.
    Quit,
    /// Anything else; the game reuses the last accepted direction.
    Other,
}

/// The direction opposite to `d`.
pub open spec fn opposite_of(d: Direction) -> Direction {
    match d {
        Direction::Up => Direction::Down,
        Direction::Down => Direction::Up,
        Direction::Left => Direction::Right,
        Direction::Right => Direction::Left,
    }
}

/// The direction a tick actually uses, given the last accepted direction
/// and the freshly polled input: a directional key is accepted unless it
/// is the exact opposite of `last`; everything else reuses `last`.
pub open spec fn locked_direction_spec(last: Direction, input: InputEvent) -> Direction {
    match input {
        InputEvent::Key(d) => if d == opposite_of(last) {
            last
        } else {
            d
        },
        _ => last,
    }
}

/// Apply the direction-lock policy: reject a reversal onto the snake's own
/// neck, fall back to the last accepted direction for non-directional input.
pub fn locked_direction(last: Direction, input: InputEvent) -> (d: Direction)
    ensures
        d == locked_direction_spec(last, input),
{
    match input {
        InputEvent::Key(d) => {
            let rev = match last {
                Direction::Up => Direction::Down,
                Direction::Down => Direction::Up,
                Direction::Left => Direction::Right,
                Direction::Right => Direction::Left,
            };
            if d == rev {
                last
            } else {
                d
            }
        },
        _ => last,
    }
}

/// Law: an incoming key for the exact opposite of the last accepted
/// direction never changes the effective direction of the tick.
pub proof fn lemma_lock_blocks_reversal(last: Direction)
    ensures
        locked_direction_spec(last, InputEvent::Key(opposite_of(last))) == last,
{
}

} // verus!
