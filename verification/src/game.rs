//! The game state and its per-tick update rules.

use crate::cell::Cell;
use crate::direction::{locked_direction, locked_direction_spec, Direction, InputEvent};
use crate::game_hardness::GameHardness;
use crate::game_status::GameStatus;
use crate::grid::{
    count_body, in_bounds, lemma_count_body_lt, lemma_count_body_partial_has_other,
    lemma_count_body_update, lemma_count_body_zero, lemma_pos_index_bounds,
    lemma_pos_index_injective, pos_index,
};
use crate::position::{adjacent, next_result, step_result, Position, StepError};
use rand::Rng;
use std::collections::VecDeque;
use vstd::prelude::*;

verus! {

/// What one application of input to a running game led to.
#[derive(Clone, Copy, Debug, PartialEq, Eq, Structural)]
pub enum TickOutcome {
    /// The game goes on.
    Continue,
    /// The player quit; the loop ends without a loss.
    Quit,
    /// The game ended: a wall was hit, the snake bit itself, or it was
    /// already over.
    GameOver,
}

/// The whole state of one game.
///
/// The grid is stored row-major in `map`: the cell at row `x`, column `y`
/// is `map[x * map_cols + y]`.  The snake is a sequence of positions with
/// the head at the front.
pub struct Game {
    /// Row-major grid contents.
    pub map: Vec<Cell>,
    /// Where the current food lies, if a food cell exists.
    pub food: Position,
    /// Ticks until the food is replaced; 0 forces placement next tick.
    pub food_time: u32,
    /// Lifecycle phase.
    pub status: GameStatus,
    /// How many ticks have run.
    pub timestamp: u32,
    /// Food eaten so far.
    pub score: u32,
    /// Current snake length; always the initial length plus the score.
    pub length: u32,
    /// The snake's cells, head first.
    pub snake: VecDeque<Position>,
    /// Whether the move being applied ate food; false between ticks.
    pub ate: bool,
    /// The last accepted direction, for the direction-lock policy.
    pub last_dir: Direction,
    /// Cosmetic difficulty, reported at game end.
    pub hardness: GameHardness,
    /// Number of columns.
    pub map_cols: usize,
    /// Number of rows.
    pub map_rows: usize,
}

/// The snake's initial length.
pub open spec fn initial_length() -> int {
    3
}

/// A dimension clamped to the smallest playable size.
pub open spec fn clamped_dim(n: usize) -> usize {
    if n < 5 {
        5usize
    } else {
        n
    }
}

impl Game {
    /// Shape constraints that hold for the whole life of a game: a grid of
    /// at least 5 by 5 whose cell count fits comfortably in the arithmetic
    /// the rules perform.
    pub open spec fn config_inv(self) -> bool {
        &&& 5 <= self.map_rows
        &&& 5 <= self.map_cols
        &&& self.map_rows * self.map_cols <= 0xffff_ffff
        &&& self.map@.len() == self.map_rows * self.map_cols
    }

    /// The cell at position `p`.
    pub open spec fn cell_at(self, p: Position) -> Cell {
        self.map@[pos_index(p, self.map_cols as int)]
    }

    /// The snake's head position.
    pub open spec fn head(self) -> Position {
        self.snake@[0]
    }

    /// The snake's tail position.
    pub open spec fn tail(self) -> Position {
        self.snake@.last()
    }

    /// The playing-state invariant.  It holds from construction until the
    /// game finishes: the final, losing move is allowed to leave the grid
    /// in its mid-move shape, since no further tick touches it.
    ///
    /// - the snake occupies exactly the `Body` cells, one cell per segment,
    ///   with no duplicate position, so the occupied-cell count equals the
    ///   current length;
    /// - consecutive snake segments are grid-adjacent;
    /// - the length is the initial length plus the score and never exceeds
    ///   the cell count;
    /// - at most one cell holds food, and only at the recorded position;
    /// - no cell holds `Head` between ticks.
    #[verifier::opaque]
    pub open spec fn state_inv(self) -> bool {
        let rows = self.map_rows as int;
        let cols = self.map_cols as int;
        &&& self.snake@.len() == self.length
        &&& self.length == self.score + initial_length()
        &&& self.length <= rows * cols
        &&& !self.ate
        &&& in_bounds(self.food, rows, cols)
        &&& forall|k: int|
            0 <= k < self.snake@.len() ==> in_bounds(#[trigger] self.snake@[k], rows, cols)
                && self.map@[pos_index(self.snake@[k], cols)] == Cell::Body
        &&& forall|k1: int, k2: int|
            0 <= k1 < k2 < self.snake@.len() ==> #[trigger] self.snake@[k1] != #[trigger] self.snake@[k2]
        &&& forall|k: int|
            0 <= k < self.snake@.len() - 1 ==> adjacent(
                #[trigger] self.snake@[k],
                self.snake@[k + 1],
            )
        &&& forall|j: int|
            0 <= j < self.map@.len() ==> {
                &&& (#[trigger] self.map@[j] == Cell::Body ==> exists|k: int|
                    0 <= k < self.snake@.len() && pos_index(#[trigger] self.snake@[k], cols) == j)
                &&& (self.map@[j] == Cell::Food ==> j == pos_index(self.food, cols))
                &&& self.map@[j] != Cell::Head
            }
        &&& count_body(self.map@) == self.length
    }

    /// The invariant carried through every public operation.
    pub open spec fn inv(self) -> bool {
        &&& self.config_inv()
        &&& self.status != GameStatus::Finished ==> self.state_inv()
    }
}

/// The row-major index of `p`, computed in executable code.
fn flat_index(p: Position, rows: usize, cols: usize) -> (i: usize)
    requires
        in_bounds(p, rows as int, cols as int),
        rows * cols <= usize::MAX,
    ensures
        i == pos_index(p, cols as int),
        i < rows * cols,
{
    proof {
        lemma_pos_index_bounds(p, rows as int, cols as int);
    }
    p.x * cols + p.y
}

impl Game {
    /// Set up a fresh game on a grid of `map_rows` by `map_cols` cells,
    /// each dimension raised to the minimum playable size of 5 if below
    /// it.  The snake starts with its initial length in the middle row,
    /// head rightmost, pointing right; no food lies on the board yet, and
    /// the zero food timer forces a placement on the first tick.
    pub fn new(map_rows: usize, map_cols: usize) -> (g: Game)
        requires
            clamped_dim(map_rows) * clamped_dim(map_cols) <= 0xffff_ffff,
        ensures
            g.inv(),
            g.status == GameStatus::Initialize,
            g.map_rows == clamped_dim(map_rows),
            g.map_cols == clamped_dim(map_cols),
            g.score == 0,
            g.length == initial_length(),
            g.timestamp == 0,
            g.food_time == 0,
            g.food == (Position { x: 0, y: 0 }),
            g.last_dir == Direction::Right,
            g.hardness == GameHardness::Normal,
            g.snake@ == seq![
                Position { x: ((g.map_rows + 1) / 2) as usize, y: ((g.map_cols + 1) / 2) as usize },
                Position {
                    x: ((g.map_rows + 1) / 2) as usize,
                    y: ((g.map_cols + 1) / 2 - 1) as usize,
                },
                Position {
                    x: ((g.map_rows + 1) / 2) as usize,
                    y: ((g.map_cols + 1) / 2 - 2) as usize,
                },
            ],
            forall|q: Position|
                in_bounds(q, g.map_rows as int, g.map_cols as int) ==> #[trigger] g.cell_at(q)
                    == (if g.snake@.contains(q) {
                    Cell::Body
                } else {
                    Cell::Blank
                }),
    {
        let rows: usize = if map_rows < 5 {
            5
        } else {
            map_rows
        };
        let cols: usize = if map_cols < 5 {
            5
        } else {
            map_cols
        };
        proof {
            assert(rows + 1 <= rows * cols && 25 <= rows * cols && cols + 1 <= rows * cols)
                by (nonlinear_arith)
                requires
                    5 <= rows,
                    5 <= cols,
            ;
        }
        let total: usize = rows * cols;
        let mut map: Vec<Cell> = Vec::new();
        while map.len() < total
            invariant
                map@.len() <= total,
                forall|j: int| 0 <= j < map@.len() ==> map@[j] == Cell::Blank,
            decreases total - map@.len(),
        {
            map.push(Cell::Blank);
        }
        let x_mid: usize = (rows + 1) / 2;
        let y_mid: usize = (cols + 1) / 2;
        let p0 = Position { x: x_mid, y: y_mid };
        let p1 = Position { x: x_mid, y: y_mid - 1 };
        let p2 = Position { x: x_mid, y: y_mid - 2 };
        let i0 = flat_index(p0, rows, cols);
        let i1 = flat_index(p1, rows, cols);
        let i2 = flat_index(p2, rows, cols);
        map.set(i0, Cell::Body);
        map.set(i1, Cell::Body);
        map.set(i2, Cell::Body);
        let mut snake: VecDeque<Position> = VecDeque::new();
        snake.push_back(p0);
        snake.push_back(p1);
        snake.push_back(p2);
        let g = Game {
            map,
            food: Position { x: 0, y: 0 },
            food_time: 0,
            status: GameStatus::Initialize,
            timestamp: 0,
            score: 0,
            length: 3,
            snake,
            ate: false,
            last_dir: Direction::Right,
            hardness: GameHardness::Normal,
            map_cols: cols,
            map_rows: rows,
        };
        proof {
            reveal(Game::state_inv);
            let ci = cols as int;
            let m0 = Seq::new((rows * cols) as nat, |j: int| Cell::Blank);
            assert(g.snake@ =~= seq![p0, p1, p2]);
            assert forall|j: int| 0 <= j < m0.len() implies m0[j] != Cell::Body by {}
            lemma_count_body_zero(m0);
            let mm = m0.update(i0 as int, Cell::Body).update(i1 as int, Cell::Body).update(
                i2 as int,
                Cell::Body,
            );
            assert(g.map@ =~= mm);
            lemma_count_body_update(m0, i0 as int, Cell::Body);
            lemma_count_body_update(m0.update(i0 as int, Cell::Body), i1 as int, Cell::Body);
            lemma_count_body_update(
                m0.update(i0 as int, Cell::Body).update(i1 as int, Cell::Body),
                i2 as int,
                Cell::Body,
            );
            assert(count_body(g.map@) == 3);
            assert forall|j: int|
                0 <= j < g.map@.len() && #[trigger] g.map@[j] == Cell::Body implies exists|k: int|
                0 <= k < g.snake@.len() && pos_index(#[trigger] g.snake@[k], ci) == j by {
                if j == i0 {
                    assert(pos_index(g.snake@[0], ci) == j);
                } else if j == i1 {
                    assert(pos_index(g.snake@[1], ci) == j);
                } else {
                    assert(pos_index(g.snake@[2], ci) == j);
                }
            }
            assert forall|q: Position|
                in_bounds(q, rows as int, ci) implies #[trigger] g.cell_at(q) == (
            if g.snake@.contains(q) {
                Cell::Body
            } else {
                Cell::Blank
            }) by {
                lemma_pos_index_bounds(q, rows as int, ci);
                let iq = pos_index(q, ci);
                if iq == i0 as int {
                    lemma_pos_index_injective(q, p0, rows as int, ci);
                    assert(g.snake@[0] == q);
                } else if iq == i1 as int {
                    lemma_pos_index_injective(q, p1, rows as int, ci);
                    assert(g.snake@[1] == q);
                } else if iq == i2 as int {
                    lemma_pos_index_injective(q, p2, rows as int, ci);
                    assert(g.snake@[2] == q);
                } else {
                    if g.snake@.contains(q) {
                        let k = choose|k: int| 0 <= k < g.snake@.len() && g.snake@[k] == q;
                        assert(false);
                    }
                }
            }
            assert(g.state_inv());
        }
        g
    }

    /// Begin play: an `Initialize` game becomes `Running`.  The status
    /// only ever moves forward, so a running or finished game is left as
    /// it is.
    pub fn start(&mut self)
        requires
            old(self).inv(),
        ensures
            final(self).inv(),
            old(self).status == GameStatus::Initialize ==> *final(self) == (Game {
                status: GameStatus::Running,
                ..*old(self)
            }),
            old(self).status != GameStatus::Initialize ==> *final(self) == *old(self),
    {
        if self.status == GameStatus::Initialize {
            self.status = GameStatus::Running;
            proof {
                lemma_state_inv_unaffected(*old(self), *self);
            }
        }
    }

    /// Read the cell at row `x`, column `y`.
    pub fn cell(&self, x: usize, y: usize) -> (c: Cell)
        requires
            self.config_inv(),
            x < self.map_rows,
            y < self.map_cols,
        ensures
            c == self.cell_at(Position { x, y }),
    {
        let i = flat_index(Position { x, y }, self.map_rows, self.map_cols);
        self.map[i]
    }
}

/// How applying one validated move to `p` relates the game state after
/// (`post`) to the state before (`pre`), depending on what the target
/// cell held:
///
/// - `Body`: the game ends in a loss; score and length are final.
/// - `Food`: score and length each grow by exactly one, the eaten cell
///   becomes the new head and no food cell remains, and the zero food
///   timer forces a replacement on the next tick; the tail is kept.
/// - `Blank`: the head advances and the vacated tail cell becomes blank;
///   score, length and food are untouched.
///
/// The configuration, the timestamp, the recorded food position and the
/// last accepted direction never change.
pub open spec fn move_rel(pre: Game, post: Game, p: Position) -> bool {
    let cols = pre.map_cols as int;
    let ip = pos_index(p, cols);
    let it = pos_index(pre.tail(), cols);
    &&& post.food == pre.food
    &&& !post.ate
    &&& post.snake@ == (if pre.cell_at(p) == Cell::Food {
        seq![p] + pre.snake@
    } else {
        (seq![p] + pre.snake@).drop_last()
    })
    &&& (pre.cell_at(p) == Cell::Body ==> {
        &&& post.status == GameStatus::Finished
        &&& post.score == pre.score
        &&& post.length == pre.length
        &&& post.food_time == pre.food_time
        &&& post.map@ == pre.map@.update(ip, Cell::Body).update(it, Cell::Blank)
    })
    &&& (pre.cell_at(p) == Cell::Food ==> {
        &&& post.status == pre.status
        &&& post.score == pre.score + 1
        &&& post.length == pre.length + 1
        &&& post.food_time == 0
        &&& post.map@ == pre.map@.update(ip, Cell::Body)
        &&& forall|j: int| 0 <= j < post.map@.len() ==> #[trigger] post.map@[j] != Cell::Food
    })
    &&& (pre.cell_at(p) == Cell::Blank ==> {
        &&& post.status == pre.status
        &&& post.score == pre.score
        &&& post.length == pre.length
        &&& post.food_time == pre.food_time
        &&& post.map@ == pre.map@.update(ip, Cell::Body).update(it, Cell::Blank)
    })
}

impl Game {
    /// Advance the head onto `p` and vacate the tail: the common part of
    /// a non-eating move, whether or not it ended the game.
    fn shift_snake(&mut self, p: Position)
        requires
            old(self).config_inv(),
            in_bounds(p, old(self).map_rows as int, old(self).map_cols as int),
            old(self).snake@.len() >= 1,
            in_bounds(
                old(self).snake@.last(),
                old(self).map_rows as int,
                old(self).map_cols as int,
            ),
        ensures
            final(self).map@ == old(self).map@.update(
                pos_index(p, old(self).map_cols as int),
                Cell::Body,
            ).update(pos_index(old(self).snake@.last(), old(self).map_cols as int), Cell::Blank),
            final(self).snake@ == (seq![p] + old(self).snake@).drop_last(),
            final(self).map@.len() == old(self).map@.len(),
            final(self).snake@.len() == old(self).snake@.len(),
            final(self).food == old(self).food,
            final(self).food_time == old(self).food_time,
            final(self).status == old(self).status,
            final(self).timestamp == old(self).timestamp,
            final(self).score == old(self).score,
            final(self).length == old(self).length,
            final(self).ate == old(self).ate,
            final(self).last_dir == old(self).last_dir,
            final(self).hardness == old(self).hardness,
            final(self).map_cols == old(self).map_cols,
            final(self).map_rows == old(self).map_rows,
    {
        let ghost s0 = old(self).snake@;
        let i = flat_index(p, self.map_rows, self.map_cols);
        self.map.set(i, Cell::Body);
        self.snake.push_front(p);
        proof {
            assert(self.snake@.last() == s0.last());
        }
        let t = self.snake.pop_back();
        match t {
            Some(tail) => {
                let j = flat_index(tail, self.map_rows, self.map_cols);
                self.map.set(j, Cell::Blank);
            },
            None => {},
        }
        proof {
            assert(self.snake@ =~= (seq![p] + s0).drop_last());
        }
    }

    /// Move the snake's head onto `p`, which must be in bounds and
    /// adjacent to the current head; a non-adjacent target would be a
    /// logic error upstream and is ruled out rather than handled.  See
    /// `move_rel` for the full effect per target cell.
    pub fn move_snake(&mut self, p: Position)
        requires
            old(self).inv(),
            old(self).status == GameStatus::Running,
            in_bounds(p, old(self).map_rows as int, old(self).map_cols as int),
            adjacent(old(self).head(), p),
        ensures
            final(self).inv(),
            move_rel(*old(self), *final(self), p),
            final(self).map_rows == old(self).map_rows,
            final(self).map_cols == old(self).map_cols,
            final(self).hardness == old(self).hardness,
            final(self).timestamp == old(self).timestamp,
            final(self).last_dir == old(self).last_dir,
            final(self).status == GameStatus::Running || final(self).status
                == GameStatus::Finished,
            final(self).status == GameStatus::Finished <==> old(self).cell_at(p) == Cell::Body,
    {
        let ghost pre = *old(self);
        let ghost rows = pre.map_rows as int;
        let ghost cols = pre.map_cols as int;
        let ghost ip = pos_index(p, cols);
        proof {
            reveal(Game::state_inv);
            lemma_pos_index_bounds(p, rows, cols);
            assert(pre.snake@.len() == pre.length);
            assert(pre.length == pre.score + initial_length());
            assert(in_bounds(pre.snake@[pre.snake@.len() - 1], rows, cols));
            assert(count_body(pre.map@) == pre.length);
            assert(pre.map@[ip] != Cell::Head);
        }
        let i = flat_index(p, self.map_rows, self.map_cols);
        let c = self.map[i];
        proof {
            // If the target holds food, the board is not full, so score
            // and length can grow without overflowing.
            if c == Cell::Food {
                lemma_count_body_lt(pre.map@, ip);
            }
        }
        match c {
            Cell::Body => {
                self.status = GameStatus::Finished;
                self.shift_snake(p);
            },
            Cell::Food => {
                self.score = self.score + 1;
                self.length = self.length + 1;
                self.ate = true;
                self.food_time = 0;
                self.map.set(i, Cell::Body);
                self.snake.push_front(p);
                self.ate = false;
                proof {
                    lemma_move_grow_preserves_inv(pre, *self, p);
                }
            },
            _ => {
                self.shift_snake(p);
                proof {
                    lemma_move_slide_preserves_inv(pre, *self, p);
                }
            },
        }
    }
}

/// Eating a move: pushing the head onto the food cell and keeping the
/// tail preserves the playing-state invariant.
proof fn lemma_move_grow_preserves_inv(pre: Game, post: Game, p: Position)
    requires
        pre.config_inv(),
        pre.state_inv(),
        in_bounds(p, pre.map_rows as int, pre.map_cols as int),
        adjacent(pre.head(), p),
        pre.cell_at(p) == Cell::Food,
        post.map_rows == pre.map_rows,
        post.map_cols == pre.map_cols,
        post.food == pre.food,
        post.snake@ == seq![p] + pre.snake@,
        post.map@ == pre.map@.update(pos_index(p, pre.map_cols as int), Cell::Body),
        post.score == pre.score + 1,
        post.length == pre.length + 1,
        !post.ate,
    ensures
        post.state_inv(),
        forall|j: int| 0 <= j < post.map@.len() ==> #[trigger] post.map@[j] != Cell::Food,
{
    reveal(Game::state_inv);
    let rows = pre.map_rows as int;
    let cols = pre.map_cols as int;
    let ip = pos_index(p, cols);
    let s0 = pre.snake@;
    let s1 = post.snake@;
    let g0 = pre.map@;
    let g1 = post.map@;
    lemma_pos_index_bounds(p, rows, cols);
    lemma_count_body_lt(g0, ip);
    lemma_count_body_update(g0, ip, Cell::Body);
    // The food cell is no snake segment.
    assert forall|k: int| 0 <= k < s0.len() implies #[trigger] s0[k] != p by {
        if s0[k] == p {
            assert(g0[pos_index(s0[k], cols)] == Cell::Body);
        }
    }
    // Segments and body cells still match.
    assert forall|k: int| 0 <= k < s1.len() implies in_bounds(#[trigger] s1[k], rows, cols)
        && g1[pos_index(s1[k], cols)] == Cell::Body by {
        if k == 0 {
            assert(s1[0] == p);
            assert(g1[pos_index(p, cols)] == Cell::Body);
        } else {
            assert(s1[k] == s0[k - 1]);
            lemma_pos_index_bounds(s0[k - 1], rows, cols);
        }
    }
    assert forall|j: int|
        0 <= j < g1.len() && #[trigger] g1[j] == Cell::Body implies exists|k: int|
        0 <= k < s1.len() && pos_index(#[trigger] s1[k], cols) == j by {
        if j == ip {
            assert(pos_index(s1[0], cols) == j);
        } else {
            assert(g0[j] == Cell::Body);
            let k0 = choose|k0: int| 0 <= k0 < s0.len() && pos_index(s0[k0], cols) == j;
            assert(s1[k0 + 1] == s0[k0]);
            assert(pos_index(s1[k0 + 1], cols) == j);
        }
    }
    // The eaten food was the only food cell on the board.
    assert(g0[ip] == Cell::Food);
    assert(ip == pos_index(pre.food, cols));
    assert forall|j: int| 0 <= j < g1.len() implies #[trigger] g1[j] != Cell::Food by {
        if j != ip {
            assert(g0[j] == Cell::Food ==> j == pos_index(pre.food, cols));
        }
    }
    assert forall|k1: int, k2: int| 0 <= k1 < k2 < s1.len() implies #[trigger] s1[k1]
        != #[trigger] s1[k2] by {
        assert(s1[k2] == s0[k2 - 1]);
        if k1 > 0 {
            assert(s1[k1] == s0[k1 - 1]);
        }
    }
    assert forall|k: int| 0 <= k < s1.len() - 1 implies adjacent(
        #[trigger] s1[k],
        s1[k + 1],
    ) by {
        if k > 0 {
            assert(s1[k] == s0[k - 1] && s1[k + 1] == s0[k]);
            assert(adjacent(s0[k - 1], s0[k]));
        } else {
            assert(s1[0] == p && s1[1] == s0[0] && s0[0] == pre.head());
            assert(adjacent(pre.head(), p));
        }
    }
    assert(s1.len() == post.length);
}

/// An ordinary move: pushing the head onto a blank cell and vacating the
/// tail preserves the playing-state invariant.
proof fn lemma_move_slide_preserves_inv(pre: Game, post: Game, p: Position)
    requires
        pre.config_inv(),
        pre.state_inv(),
        in_bounds(p, pre.map_rows as int, pre.map_cols as int),
        adjacent(pre.head(), p),
        pre.cell_at(p) == Cell::Blank,
        post.map_rows == pre.map_rows,
        post.map_cols == pre.map_cols,
        post.food == pre.food,
        post.snake@ == (seq![p] + pre.snake@).drop_last(),
        post.map@ == pre.map@.update(pos_index(p, pre.map_cols as int), Cell::Body).update(
            pos_index(pre.tail(), pre.map_cols as int),
            Cell::Blank,
        ),
        post.score == pre.score,
        post.length == pre.length,
        !post.ate,
    ensures
        post.state_inv(),
{
    reveal(Game::state_inv);
    let rows = pre.map_rows as int;
    let cols = pre.map_cols as int;
    let ip = pos_index(p, cols);
    let tail = pre.tail();
    let it = pos_index(tail, cols);
    let s0 = pre.snake@;
    let s1 = post.snake@;
    let g0 = pre.map@;
    let g1 = post.map@;
    let last = s0.len() - 1;
    lemma_pos_index_bounds(p, rows, cols);
    assert(s0[last] == tail);
    assert(in_bounds(tail, rows, cols));
    lemma_pos_index_bounds(tail, rows, cols);
    // The blank target is no snake segment, so in particular not the tail.
    assert forall|k: int| 0 <= k < s0.len() implies #[trigger] s0[k] != p by {
        if s0[k] == p {
            assert(g0[pos_index(s0[k], cols)] == Cell::Body);
        }
    }
    if ip == it {
        lemma_pos_index_injective(p, tail, rows, cols);
    }
    assert(ip != it);
    lemma_count_body_update(g0, ip, Cell::Body);
    lemma_count_body_update(g0.update(ip, Cell::Body), it, Cell::Blank);
    assert(s1.len() == s0.len());
    assert forall|k: int| 0 <= k < s1.len() implies in_bounds(#[trigger] s1[k], rows, cols)
        && g1[pos_index(s1[k], cols)] == Cell::Body by {
        if k == 0 {
            assert(s1[0] == p);
            assert(ip != it);
            assert(g1[pos_index(p, cols)] == Cell::Body);
        } else {
            assert(s1[k] == s0[k - 1]);
            lemma_pos_index_bounds(s0[k - 1], rows, cols);
            assert(s0[k - 1] != s0[last]);
            if pos_index(s0[k - 1], cols) == it {
                lemma_pos_index_injective(s0[k - 1], tail, rows, cols);
            }
        }
    }
    assert forall|j: int|
        0 <= j < g1.len() && #[trigger] g1[j] == Cell::Body implies exists|k: int|
        0 <= k < s1.len() && pos_index(#[trigger] s1[k], cols) == j by {
        if j == ip {
            assert(pos_index(s1[0], cols) == j);
        } else {
            assert(j != it);
            assert(g0[j] == Cell::Body);
            let k0 = choose|k0: int| 0 <= k0 < s0.len() && pos_index(s0[k0], cols) == j;
            if k0 == last {
                assert(false);
            } else {
                assert(s1[k0 + 1] == s0[k0]);
                assert(pos_index(s1[k0 + 1], cols) == j);
            }
        }
    }
    assert forall|k1: int, k2: int| 0 <= k1 < k2 < s1.len() implies #[trigger] s1[k1]
        != #[trigger] s1[k2] by {
        assert(s1[k2] == s0[k2 - 1]);
        if k1 > 0 {
            assert(s1[k1] == s0[k1 - 1]);
        }
    }
    assert forall|k: int| 0 <= k < s1.len() - 1 implies adjacent(
        #[trigger] s1[k],
        s1[k + 1],
    ) by {
        assert(s1[k + 1] == s0[k]);
        if k > 0 {
            assert(s1[k] == s0[k - 1]);
            assert(adjacent(s0[k - 1], s0[k]));
        } else {
            assert(s1[0] == p && s0[0] == pre.head());
            assert(adjacent(pre.head(), p));
        }
    }
}

/// `g` with the cell at `food` cleared if it still holds food: the board
/// as it stands the moment a new food position is about to be chosen.
pub open spec fn food_cleared(g: Seq<Cell>, food: Position, cols: int) -> Seq<Cell> {
    if g[pos_index(food, cols)] == Cell::Food {
        g.update(pos_index(food, cols), Cell::Blank)
    } else {
        g
    }
}

/// Clearing the food cell preserves the playing-state invariant.
proof fn lemma_clear_food_preserves_inv(pre: Game, post: Game)
    requires
        pre.config_inv(),
        pre.state_inv(),
        post.map@ == food_cleared(pre.map@, pre.food, pre.map_cols as int),
        post.snake@ == pre.snake@,
        post.food == pre.food,
        post.score == pre.score,
        post.length == pre.length,
        post.ate == pre.ate,
        post.map_rows == pre.map_rows,
        post.map_cols == pre.map_cols,
    ensures
        post.state_inv(),
{
    reveal(Game::state_inv);
    let rows = pre.map_rows as int;
    let cols = pre.map_cols as int;
    let fi = pos_index(pre.food, cols);
    let g0 = pre.map@;
    let g1 = post.map@;
    let s0 = pre.snake@;
    lemma_pos_index_bounds(pre.food, rows, cols);
    if g0[fi] == Cell::Food {
        lemma_count_body_update(g0, fi, Cell::Blank);
    }
    assert forall|k: int| 0 <= k < s0.len() implies in_bounds(#[trigger] s0[k], rows, cols)
        && g1[pos_index(s0[k], cols)] == Cell::Body by {
        lemma_pos_index_bounds(s0[k], rows, cols);
    }
    assert forall|j: int|
        0 <= j < g1.len() && #[trigger] g1[j] == Cell::Body implies exists|k: int|
        0 <= k < s0.len() && pos_index(#[trigger] s0[k], cols) == j by {
        assert(g0[j] == Cell::Body);
    }
}

/// Putting food on a blank cell preserves the playing-state invariant,
/// and afterwards the recorded position holds the only food cell.
proof fn lemma_place_food_preserves_inv(pre: Game, post: Game, p: Position)
    requires
        pre.config_inv(),
        pre.state_inv(),
        in_bounds(p, pre.map_rows as int, pre.map_cols as int),
        pre.cell_at(p) == Cell::Blank,
        post.map@ == food_cleared(pre.map@, pre.food, pre.map_cols as int).update(
            pos_index(p, pre.map_cols as int),
            Cell::Food,
        ),
        post.snake@ == pre.snake@,
        post.food == p,
        post.score == pre.score,
        post.length == pre.length,
        post.ate == pre.ate,
        post.map_rows == pre.map_rows,
        post.map_cols == pre.map_cols,
    ensures
        post.state_inv(),
{
    reveal(Game::state_inv);
    let rows = pre.map_rows as int;
    let cols = pre.map_cols as int;
    let fi = pos_index(pre.food, cols);
    let pi = pos_index(p, cols);
    let g0 = pre.map@;
    let gc = food_cleared(g0, pre.food, cols);
    let g1 = post.map@;
    let s0 = pre.snake@;
    lemma_pos_index_bounds(pre.food, rows, cols);
    lemma_pos_index_bounds(p, rows, cols);
    if g0[fi] == Cell::Food {
        lemma_count_body_update(g0, fi, Cell::Blank);
    }
    assert(gc[pi] != Cell::Body);
    lemma_count_body_update(gc, pi, Cell::Food);
    assert(count_body(g1) == post.length);
    assert forall|k: int| 0 <= k < s0.len() implies in_bounds(#[trigger] s0[k], rows, cols)
        && g1[pos_index(s0[k], cols)] == Cell::Body by {
        lemma_pos_index_bounds(s0[k], rows, cols);
        assert(g0[pos_index(s0[k], cols)] == Cell::Body);
    }
    assert forall|j: int|
        0 <= j < g1.len() && #[trigger] g1[j] == Cell::Body implies exists|k: int|
        0 <= k < s0.len() && pos_index(#[trigger] s0[k], cols) == j by {
        assert(g0[j] == Cell::Body);
    }
    assert forall|j: int|
        0 <= j < g1.len() && #[trigger] g1[j] == Cell::Food implies j == pos_index(
        post.food,
        cols,
    ) by {
        if j != pi {
            assert(g0[j] == Cell::Food ==> j == fi);
        }
    }
}

impl Game {
    /// Put food onto the blank cell `p`: any stale food cell is cleared,
    /// the new position is recorded, and the replacement countdown is
    /// restarted.  This is also how a game with a scripted board places
    /// its food deterministically.
    pub fn place_food(&mut self, p: Position)
        requires
            old(self).inv(),
            old(self).status != GameStatus::Finished,
            in_bounds(p, old(self).map_rows as int, old(self).map_cols as int),
            old(self).cell_at(p) == Cell::Blank,
        ensures
            final(self).inv(),
            final(self).food == p,
            final(self).food_time == 2 * (old(self).map_rows + old(self).map_cols),
            final(self).map@ == food_cleared(
                old(self).map@,
                old(self).food,
                old(self).map_cols as int,
            ).update(pos_index(p, old(self).map_cols as int), Cell::Food),
            final(self).cell_at(p) == Cell::Food,
            final(self).snake@ == old(self).snake@,
            final(self).score == old(self).score,
            final(self).length == old(self).length,
            final(self).status == old(self).status,
            final(self).timestamp == old(self).timestamp,
            final(self).last_dir == old(self).last_dir,
            final(self).ate == old(self).ate,
            final(self).hardness == old(self).hardness,
            final(self).map_rows == old(self).map_rows,
            final(self).map_cols == old(self).map_cols,
    {
        let ghost pre = *old(self);
        let ghost rows = pre.map_rows as int;
        let ghost cols = pre.map_cols as int;
        proof {
            reveal(Game::state_inv);
            assert(in_bounds(pre.food, rows, cols));
            assert(2 * (rows + cols) <= rows * cols) by (nonlinear_arith)
                requires
                    5 <= rows,
                    5 <= cols,
            ;
        }
        let fi = flat_index(self.food, self.map_rows, self.map_cols);
        if self.map[fi] == Cell::Food {
            self.map.set(fi, Cell::Blank);
        }
        let pi = flat_index(p, self.map_rows, self.map_cols);
        self.map.set(pi, Cell::Food);
        self.food = p;
        let t: usize = 2 * (self.map_rows + self.map_cols);
        self.food_time = t as u32;
        proof {
            lemma_place_food_preserves_inv(pre, *self, p);
        }
    }

    /// Every blank cell of the board, in row-major order.
    fn blank_cells(&self) -> (v: Vec<Position>)
        requires
            self.config_inv(),
        ensures
            forall|k: int|
                0 <= k < v@.len() ==> in_bounds(
                    #[trigger] v@[k],
                    self.map_rows as int,
                    self.map_cols as int,
                ) && self.cell_at(v@[k]) == Cell::Blank,
            forall|j: int|
                0 <= j < self.map@.len() && #[trigger] self.map@[j] == Cell::Blank
                    ==> exists|k: int|
                    0 <= k < v@.len() && pos_index(#[trigger] v@[k], self.map_cols as int) == j,
    {
        let rows = self.map_rows;
        let cols = self.map_cols;
        let mut v: Vec<Position> = Vec::new();
        let mut x: usize = 0;
        while x < rows
            invariant
                x <= rows,
                rows == self.map_rows,
                cols == self.map_cols,
                self.config_inv(),
                forall|k: int|
                    0 <= k < v@.len() ==> in_bounds(#[trigger] v@[k], rows as int, cols as int)
                        && self.map@[pos_index(v@[k], cols as int)] == Cell::Blank,
                forall|j: int|
                    0 <= j < x * cols && #[trigger] self.map@[j] == Cell::Blank ==> exists|k: int|
                        0 <= k < v@.len() && pos_index(#[trigger] v@[k], cols as int) == j,
            decreases rows - x,
        {
            let mut y: usize = 0;
            while y < cols
                invariant
                    x < rows,
                    y <= cols,
                    rows == self.map_rows,
                    cols == self.map_cols,
                    self.config_inv(),
                    forall|k: int|
                        0 <= k < v@.len() ==> in_bounds(#[trigger] v@[k], rows as int, cols as int)
                            && self.map@[pos_index(v@[k], cols as int)] == Cell::Blank,
                    forall|j: int|
                        0 <= j < x * cols + y && #[trigger] self.map@[j] == Cell::Blank
                            ==> exists|k: int|
                            0 <= k < v@.len() && pos_index(#[trigger] v@[k], cols as int) == j,
                decreases cols - y,
            {
                let q = Position { x, y };
                let i = flat_index(q, rows, cols);
                let ghost vpre = v@;
                if self.map[i] == Cell::Blank {
                    v.push(q);
                }
                proof {
                    assert forall|j: int|
                        0 <= j < x * cols + y + 1 && #[trigger] self.map@[j] == Cell::Blank
                            implies exists|k: int|
                        0 <= k < v@.len() && pos_index(#[trigger] v@[k], cols as int) == j by {
                        if j == x * cols + y {
                            assert(v@ == vpre.push(q));
                            assert(v@[vpre.len() as int] == q);
                            assert(pos_index(v@[vpre.len() as int], cols as int) == j);
                        } else {
                            let k0 = choose|k0: int|
                                0 <= k0 < vpre.len() && pos_index(
                                    #[trigger] vpre[k0],
                                    cols as int,
                                ) == j;
                            assert(v@[k0] == vpre[k0]);
                            assert(pos_index(v@[k0], cols as int) == j);
                        }
                    }
                }
                y = y + 1;
            }
            x = x + 1;
            proof {
                assert(x * cols == (x - 1) * cols + cols) by (nonlinear_arith);
            }
        }
        proof {
            assert(rows * cols == self.map@.len());
        }
        v
    }

    /// If the food countdown has run out, clear any stale food cell and
    /// place food on a blank cell chosen uniformly at random, restarting
    /// the countdown; otherwise leave the game untouched.  The caller has
    /// already ruled out a full board, so a blank cell exists.
    fn refresh_food_state(&mut self)
        requires
            old(self).inv(),
            old(self).status == GameStatus::Running,
            old(self).length < old(self).map_rows * old(self).map_cols,
        ensures
            final(self).inv(),
            old(self).food_time > 0 ==> *final(self) == *old(self),
            old(self).food_time == 0 ==> {
                let cleared = food_cleared(
                    old(self).map@,
                    old(self).food,
                    old(self).map_cols as int,
                );
                &&& in_bounds(final(self).food, old(self).map_rows as int, old(self).map_cols as int)
                &&& cleared[pos_index(final(self).food, old(self).map_cols as int)] == Cell::Blank
                &&& final(self).map@ == cleared.update(
                    pos_index(final(self).food, old(self).map_cols as int),
                    Cell::Food,
                )
                &&& final(self).food_time == 2 * (old(self).map_rows + old(self).map_cols)
            },
            final(self).snake@ == old(self).snake@,
            final(self).score == old(self).score,
            final(self).length == old(self).length,
            final(self).status == old(self).status,
            final(self).timestamp == old(self).timestamp,
            final(self).last_dir == old(self).last_dir,
            final(self).ate == old(self).ate,
            final(self).hardness == old(self).hardness,
            final(self).map_rows == old(self).map_rows,
            final(self).map_cols == old(self).map_cols,
    {
        if self.food_time > 0 {
            return;
        }
        let ghost pre = *old(self);
        let ghost rows = pre.map_rows as int;
        let ghost cols = pre.map_cols as int;
        let ghost fi = pos_index(pre.food, cols);
        proof {
            reveal(Game::state_inv);
            lemma_pos_index_bounds(pre.food, rows, cols);
        }
        let fx = flat_index(self.food, self.map_rows, self.map_cols);
        if self.map[fx] == Cell::Food {
            self.map.set(fx, Cell::Blank);
        }
        proof {
            assert(self.map@ == food_cleared(pre.map@, pre.food, cols));
            lemma_clear_food_preserves_inv(pre, *self);
        }
        let blanks = self.blank_cells();
        proof {
            reveal(Game::state_inv);
            // The board is not full, so after the clearing some cell is
            // not a body cell, and with no food or head marker left on
            // the board that cell is blank and was collected.
            if pre.map@[fi] == Cell::Food {
                lemma_count_body_update(pre.map@, fi, Cell::Blank);
            }
            assert(count_body(self.map@) < self.map@.len());
            lemma_count_body_partial_has_other(self.map@);
            let j = choose|j: int| 0 <= j < self.map@.len() && self.map@[j] != Cell::Body;
            if self.map@[j] == Cell::Food {
                if j != fi {
                    assert(pre.map@[j] == Cell::Food);
                }
                assert(false);
            }
            assert(self.map@[j] == Cell::Blank);
            assert(blanks@.len() > 0);
        }
        let r = rand_below(blanks.len());
        let fp = blanks[r];
        self.place_food(fp);
    }
}

/// A game state equal in everything the playing-state invariant reads
/// keeps the invariant.
proof fn lemma_state_inv_unaffected(a: Game, b: Game)
    requires
        a.state_inv(),
        b.map@ == a.map@,
        b.snake@ == a.snake@,
        b.food == a.food,
        b.score == a.score,
        b.length == a.length,
        b.ate == a.ate,
        b.map_rows == a.map_rows,
        b.map_cols == a.map_cols,
    ensures
        b.state_inv(),
{
    reveal(Game::state_inv);
}

impl Game {
    /// The start of one tick of a running game, in order: the win check
    /// (a snake filling the whole board finishes the game victoriously),
    /// the food refresh when the countdown ran out, and the advance of
    /// the clock.  Returns whether the game was won this tick.  A game
    /// that is not running is left untouched.
    pub fn tick_prepare(&mut self) -> (won: bool)
        requires
            old(self).inv(),
        ensures
            final(self).inv(),
            old(self).status != GameStatus::Running ==> *final(self) == *old(self) && !won,
            old(self).status == GameStatus::Running ==> {
                &&& won == (old(self).length == old(self).map_rows * old(self).map_cols)
                &&& (won ==> *final(self) == (Game {
                    status: GameStatus::Finished,
                    ..*old(self)
                }))
                &&& (!won ==> {
                    let cleared = food_cleared(
                        old(self).map@,
                        old(self).food,
                        old(self).map_cols as int,
                    );
                    &&& final(self).status == GameStatus::Running
                    &&& final(self).timestamp == (if old(self).timestamp == u32::MAX {
                        0u32
                    } else {
                        (old(self).timestamp + 1) as u32
                    })
                    &&& final(self).snake@ == old(self).snake@
                    &&& final(self).score == old(self).score
                    &&& final(self).length == old(self).length
                    &&& final(self).last_dir == old(self).last_dir
                    &&& final(self).map_rows == old(self).map_rows
                    &&& final(self).map_cols == old(self).map_cols
                    &&& final(self).hardness == old(self).hardness
                    &&& (old(self).food_time > 0 ==> final(self).map@ == old(self).map@
                        && final(self).food == old(self).food
                        && final(self).food_time == old(self).food_time - 1)
                    &&& (old(self).food_time == 0 ==> {
                        &&& in_bounds(
                            final(self).food,
                            old(self).map_rows as int,
                            old(self).map_cols as int,
                        )
                        &&& cleared[pos_index(final(self).food, old(self).map_cols as int)]
                            == Cell::Blank
                        &&& final(self).map@ == cleared.update(
                            pos_index(final(self).food, old(self).map_cols as int),
                            Cell::Food,
                        )
                        &&& final(self).food_time == 2 * (old(self).map_rows + old(self).map_cols)
                            - 1
                    })
                })
            },
    {
        if self.status != GameStatus::Running {
            return false;
        }
        let total: usize = self.map_rows * self.map_cols;
        if self.length as usize == total {
            self.status = GameStatus::Finished;
            return true;
        }
        proof {
            reveal(Game::state_inv);
            assert(self.length < total);
        }
        self.refresh_food_state();
        let ghost mid = *self;
        self.timestamp = self.timestamp.wrapping_add(1);
        self.food_time = self.food_time - 1;
        proof {
            lemma_state_inv_unaffected(mid, *self);
        }
        false
    }

    /// Where the head moves next for the given input, stepping on the
    /// largest usable row and column indices of this board.
    pub fn get_next_pos(&self, input: InputEvent) -> (r: Result<Position, StepError>)
        requires
            self.inv(),
            self.status == GameStatus::Running,
        ensures
            r == next_result(
                self.head(),
                input,
                (self.map_rows - 1) as usize,
                (self.map_cols - 1) as usize,
            ),
    {
        proof {
            reveal(Game::state_inv);
            assert(self.snake@.len() > 0);
            assert(in_bounds(self.snake@[0], self.map_rows as int, self.map_cols as int));
        }
        let head = self.snake[0];
        head.get_next(input, self.map_rows - 1, self.map_cols - 1)
    }

    /// Apply one polled input to a running game: the direction-lock
    /// policy picks the effective direction, the head steps, and the move
    /// is applied.  Quitting leaves the state untouched; a step off the
    /// board finishes the game as a loss; a game that is not running is
    /// left untouched.
    pub fn apply_input(&mut self, input: InputEvent) -> (r: TickOutcome)
        requires
            old(self).inv(),
        ensures
            final(self).inv(),
            old(self).status != GameStatus::Running ==> *final(self) == *old(self) && r == (
            if old(self).status == GameStatus::Finished {
                TickOutcome::GameOver
            } else {
                TickOutcome::Continue
            }),
            old(self).status == GameStatus::Running ==> {
                &&& (input == InputEvent::Quit ==> *final(self) == *old(self) && r
                    == TickOutcome::Quit)
                &&& (input != InputEvent::Quit ==> {
                    let d = locked_direction_spec(old(self).last_dir, input);
                    let step = step_result(
                        old(self).head(),
                        d,
                        (old(self).map_rows - 1) as usize,
                        (old(self).map_cols - 1) as usize,
                    );
                    &&& final(self).last_dir == d
                    &&& final(self).timestamp == old(self).timestamp
                    &&& final(self).map_rows == old(self).map_rows
                    &&& final(self).map_cols == old(self).map_cols
                    &&& final(self).hardness == old(self).hardness
                    &&& (step is Err ==> {
                        &&& r == TickOutcome::GameOver
                        &&& final(self).status == GameStatus::Finished
                        &&& final(self).map@ == old(self).map@
                        &&& final(self).snake@ == old(self).snake@
                        &&& final(self).score == old(self).score
                        &&& final(self).length == old(self).length
                        &&& final(self).food == old(self).food
                        &&& final(self).food_time == old(self).food_time
                    })
                    &&& (step is Ok ==> {
                        &&& move_rel(*old(self), *final(self), step.unwrap())
                        &&& (final(self).status == GameStatus::Finished <==> old(self).cell_at(
                            step.unwrap(),
                        ) == Cell::Body)
                        &&& r == (if final(self).status == GameStatus::Finished {
                            TickOutcome::GameOver
                        } else {
                            TickOutcome::Continue
                        })
                    })
                })
            },
    {
        if self.status != GameStatus::Running {
            if self.status == GameStatus::Finished {
                return TickOutcome::GameOver;
            } else {
                return TickOutcome::Continue;
            }
        }
        match input {
            InputEvent::Quit => {
                return TickOutcome::Quit;
            },
            _ => {},
        }
        let ghost pre = *old(self);
        let d = locked_direction(self.last_dir, input);
        self.last_dir = d;
        proof {
            lemma_state_inv_unaffected(pre, *self);
        }
        let next = self.get_next_pos(InputEvent::Key(d));
        match next {
            Err(_) => {
                self.status = GameStatus::Finished;
                TickOutcome::GameOver
            },
            Ok(p) => {
                proof {
                    reveal(Game::state_inv);
                    assert(in_bounds(pre.head(), pre.map_rows as int, pre.map_cols as int));
                    assert(in_bounds(p, pre.map_rows as int, pre.map_cols as int) && adjacent(
                        pre.head(),
                        p,
                    ));
                }
                self.move_snake(p);
                if self.status == GameStatus::Finished {
                    TickOutcome::GameOver
                } else {
                    TickOutcome::Continue
                }
            },
        }
    }

    /// The board as a renderer should draw it this frame: the grid with
    /// the head cell marked `Head`.  The game's own grid never holds the
    /// marker; only the exported copy does.
    pub fn snapshot(&self) -> (out: Vec<Cell>)
        requires
            self.inv(),
            self.status != GameStatus::Finished,
        ensures
            out@ == self.map@.update(
                pos_index(self.head(), self.map_cols as int),
                Cell::Head,
            ),
    {
        proof {
            reveal(Game::state_inv);
            assert(self.snake@.len() > 0);
            assert(in_bounds(self.snake@[0], self.map_rows as int, self.map_cols as int));
        }
        let n = self.map.len();
        let mut out: Vec<Cell> = Vec::new();
        while out.len() < n
            invariant
                out@.len() <= n,
                n == self.map@.len(),
                forall|j: int| 0 <= j < out@.len() ==> out@[j] == self.map@[j],
            decreases n - out@.len(),
        {
            let i = out.len();
            out.push(self.map[i]);
        }
        let head = self.snake[0];
        let hi = flat_index(head, self.map_rows, self.map_cols);
        out.set(hi, Cell::Head);
        proof {
            assert(out@ =~= self.map@.update(
                pos_index(self.head(), self.map_cols as int),
                Cell::Head,
            ));
        }
        out
    }

    /// How long this tick's input poll may wait, in milliseconds: the
    /// cell count minus the score, so the game speeds up as food is
    /// eaten.
    pub fn wait_time(&self) -> (t: usize)
        requires
            self.inv(),
            self.status == GameStatus::Running,
        ensures
            t == self.map_rows * self.map_cols - self.score,
    {
        proof {
            reveal(Game::state_inv);
        }
        let total: usize = self.map_rows * self.map_cols;
        total - (self.score as usize)
    }
}

/// Law (growth invariant): in any well-formed game that has not finished,
/// the number of body cells on the board equals the snake's length, the
/// snake holds exactly that many positions, and the length is the initial
/// length plus the score.
pub proof fn lemma_growth_invariant(g: Game)
    requires
        g.inv(),
        g.status != GameStatus::Finished,
    ensures
        count_body(g.map@) == g.length,
        g.snake@.len() == g.length,
        g.length == g.score + initial_length(),
{
    reveal(Game::state_inv);
}

/// Relies on `rand::Rng::gen_range` over `0..n` (on `rand::thread_rng`):
/// a uniformly drawn value of the nonempty range, so strictly below `n`.
#[verifier::external_body]
fn rand_below(n: usize) -> (r: usize)
    requires
        n > 0,
    ensures
        r < n,
{
    rand::thread_rng().gen_range(0..n)
}

} // verus!
