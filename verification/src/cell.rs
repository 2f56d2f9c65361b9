//! Contents of a single grid cell.

use vstd::prelude::*;

verus! {

/// What one cell of the play field holds.
///
/// `Head` never appears in the game's own grid between ticks: it is used
/// only in snapshots handed to a renderer, which marks the snake's head
/// cell for one frame.
#[derive(Clone, Copy, Debug, PartialEq, Eq, Structural)]
pub enum Cell {
    /// A piece of food; moving onto it grows the snake.
    Food,
    /// A segment of the snake's body; moving onto it ends the game.
    Body,
    /// The snake's head, used in rendered snapshots only.
    Head,
    /// An empty cell.
    Blank,
}

} // verus!
