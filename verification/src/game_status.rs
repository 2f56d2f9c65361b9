//! Lifecycle of one game.

use vstd::prelude::*;

verus! {

/// The phase a game is in.  It only ever moves forward:
/// `Initialize` to `Running` to `Finished`; a finished game never runs again.
#[derive(Clone, Copy, Debug, PartialEq, Eq, Structural)]
pub enum GameStatus {
    /// Constructed, not yet started.
    Initialize,
    /// The tick loop is live.
    Running,
    /// The game ended by win, loss, or quit; terminal.
    Finished,
}

} // verus!
