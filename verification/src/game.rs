//! The game state machine: timing, commands, scoring and leveling.
//!
//! The host drives one `GameState` exclusively: each frame it issues
//! zero or more commands and then calls [`GameState::update`] with the
//! elapsed milliseconds and the soft-drop flag. Timers are whole
//! milliseconds; additions saturate, so no frame delta can fault the
//! machine. Persistence stays with the host: it supplies the stored
//! high score at construction and may store the field back whenever
//! the game ends.

use vstd::prelude::*;
use crate::bag::{full_bag, BagRandomizer};
use crate::board::{
    cell_filled, cleared_grid, empty_row, grid_wf, lock_cells, locked_grid,
    mat_collides, remove_rows, row_full, rows_sorted, Cell,
};
use crate::board;
use crate::constants::{
    FALL_INTERVAL_MS, GRID_HEIGHT, GRID_WIDTH, LINE_CLEAR_ANIMATION_MS, LOCK_DELAY_MS,
    SCORE_DOUBLE, SCORE_HARD_DROP, SCORE_SINGLE, SCORE_SOFT_DROP, SCORE_TETRIS, SCORE_TRIPLE,
    SOFT_DROP_INTERVAL_MS,
};
use crate::tetromino::{rot_ccw, rot_cw, rows_view, shape_spec, Tetromino, TetrominoType};

verus! {

/// The two phases of play.
#[derive(Clone, Copy, Debug, PartialEq, Eq, Structural)]
pub enum State {
    /// The active piece falls and answers commands.
    Playing,
    /// Full rows fade out; commands are inert until they are removed.
    LineClearAnimation,
}

/// The whole engine state: board, active piece, preview and hold,
/// scoring, and the three millisecond timers.
pub struct GameState {
    /// Current phase of play.
    pub state: State,
    /// Milliseconds the line-clear animation has been running.
    pub line_clear_timer: u32,
    /// Indices of the full rows awaiting removal, in increasing order.
    pub lines_being_cleared: Vec<usize>,
    /// The board's rows of locked cells.
    pub grid: Vec<Vec<Cell>>,
    /// The falling piece.
    pub current_piece: Tetromino,
    /// The kind the next spawn will use.
    pub next_piece: TetrominoType,
    /// The kind set aside by the hold command, if any.
    pub held_piece: Option<TetrominoType>,
    /// Whether the hold command is still available this piece-lifetime.
    pub can_hold: bool,
    /// Points scored this game.
    pub score: u32,
    /// Best score seen, seeded from the host's stored value.
    pub high_score: u32,
    /// Current level, at least 1; gravity speeds up with it.
    pub level: u32,
    /// Total rows cleared this game.
    pub lines_cleared: u32,
    /// Whether a spawn failed and play has ended.
    pub game_over: bool,
    /// Milliseconds since the last gravity step.
    pub fall_timer: u32,
    /// Milliseconds the piece has rested on its support.
    pub lock_timer: u32,
    /// Whether the piece sat on its support when last updated.
    pub is_on_ground: bool,
    /// Source of the piece-kind sequence.
    pub bag_randomizer: BagRandomizer,
}

/// The integer clamped into the `u32` range; saturating arithmetic
/// lands here.
pub open spec fn sat32(x: int) -> u32 {
    if x > u32::MAX { u32::MAX } else if x < 0 { 0u32 } else { x as u32 }
}

/// Base score for clearing `n` rows at once, before the level
/// multiplier. The matrices are four rows tall, so no piece can
/// complete more than four rows; a count above four scores as four.
pub open spec fn line_score(n: int) -> int {
    if n <= 0 {
        0
    } else if n == 1 {
        SCORE_SINGLE as int
    } else if n == 2 {
        SCORE_DOUBLE as int
    } else if n == 3 {
        SCORE_TRIPLE as int
    } else {
        SCORE_TETRIS as int
    }
}

/// Milliseconds between gravity steps at the given level: the base
/// interval divided by the level, and never less than one.
pub open spec fn gravity_interval(level: int) -> int
    recommends
        level >= 1,
{
    let d = FALL_INTERVAL_MS as int / level;
    if d < 1 { 1 } else { d }
}

/// The spawn column: the piece matrix starts centered at the top.
pub open spec fn spawn_x() -> int {
    GRID_WIDTH as int / 2 - 2
}

/// Whether `q` is a fresh spawn of kind `t`: canonical matrix, spawn
/// origin, rotation index zero.
pub open spec fn is_fresh_spawn(q: Tetromino, t: TetrominoType) -> bool {
    &&& q.tetromino_type == t
    &&& q.mat() == shape_spec(t)
    &&& q.x == spawn_x()
    &&& q.y == 0
    &&& q.rotation == 0
}

/// Whether `b` differs from `a` at most in the active piece.
pub open spec fn same_but_piece(a: GameState, b: GameState) -> bool {
    b == (GameState { current_piece: b.current_piece, ..a })
}

impl GameState {
    /// The board as a mathematical grid of cells.
    pub open spec fn gv(self) -> Seq<Seq<Cell>> {
        rows_view(self.grid@)
    }

    /// The active piece's occupancy matrix.
    pub open spec fn pm(self) -> Seq<Seq<u8>> {
        self.current_piece.mat()
    }

    /// The engine's invariant: a well-formed board and piece, the
    /// piece's origin near the board, a level of at least one, pending
    /// rows sorted and in range, and a truthful preview: the bag is
    /// never empty and its last entry is the announced next kind.
    pub open spec fn wf(self) -> bool {
        &&& grid_wf(self.gv())
        &&& self.current_piece.wf()
        &&& -3 <= self.current_piece.x <= GRID_WIDTH - 1
        &&& -4 <= self.current_piece.y <= GRID_HEIGHT
        &&& self.level >= 1
        &&& rows_sorted(self.lines_being_cleared@)
        &&& forall|k: int| 0 <= k < self.lines_being_cleared@.len()
            ==> self.lines_being_cleared@[k] < GRID_HEIGHT
        &&& self.bag_randomizer.wf()
        &&& self.bag_randomizer@.len() > 0
        &&& self.next_piece == self.bag_randomizer@.last()
    }

    /// A fresh game: empty board, zero score, level 1, the first kind
    /// drawn from a new bag and the second previewed. The host passes
    /// in the stored high score.
    pub fn new(high_score: u32) -> (r: GameState)
        ensures
            r.wf(),
            r.state == State::Playing,
            r.line_clear_timer == 0,
            r.lines_being_cleared@.len() == 0,
            forall|x: int, y: int| 0 <= x < GRID_WIDTH && 0 <= y < GRID_HEIGHT
                ==> !cell_filled(r.gv(), x, y),
            is_fresh_spawn(r.current_piece, r.current_piece.tetromino_type),
            r.held_piece is None,
            r.can_hold,
            r.score == 0,
            r.high_score == high_score,
            r.level == 1,
            r.lines_cleared == 0,
            !r.game_over,
            r.fall_timer == 0,
            r.lock_timer == 0,
            !r.is_on_ground,
            r.bag_randomizer@.to_multiset().insert(r.current_piece.tetromino_type)
                == full_bag(),
    {
        let mut bag_randomizer = BagRandomizer::new();
        let ghost b0 = bag_randomizer@;
        let current_type = bag_randomizer.next();
        proof {
            broadcast use vstd::seq_lib::group_to_multiset_ensures;
            assert(b0 =~= bag_randomizer@.push(current_type));
            assert(bag_randomizer@.to_multiset().insert(current_type) == full_bag());
        }
        let next_type = bag_randomizer.peek();
        let grid = empty_grid();
        GameState {
            state: State::Playing,
            line_clear_timer: 0,
            lines_being_cleared: Vec::new(),
            grid,
            current_piece: Tetromino::new(current_type),
            next_piece: next_type,
            held_piece: None,
            can_hold: true,
            score: 0,
            high_score,
            level: 1,
            lines_cleared: 0,
            game_over: false,
            fall_timer: 0,
            lock_timer: 0,
            is_on_ground: false,
            bag_randomizer,
        }
    }

    /// Replaces the state with a fresh game, indistinguishable from a
    /// new construction; the host passes the stored high score in
    /// again.
    pub fn reset(&mut self, high_score: u32)
        ensures
            final(self).wf(),
            final(self).state == State::Playing,
            final(self).line_clear_timer == 0,
            final(self).lines_being_cleared@.len() == 0,
            forall|x: int, y: int| 0 <= x < GRID_WIDTH && 0 <= y < GRID_HEIGHT
                ==> !cell_filled(final(self).gv(), x, y),
            is_fresh_spawn(final(self).current_piece, final(self).current_piece.tetromino_type),
            final(self).held_piece is None,
            final(self).can_hold,
            final(self).score == 0,
            final(self).high_score == high_score,
            final(self).level == 1,
            final(self).lines_cleared == 0,
            !final(self).game_over,
            final(self).fall_timer == 0,
            final(self).lock_timer == 0,
            !final(self).is_on_ground,
            final(self).bag_randomizer@.to_multiset()
                .insert(final(self).current_piece.tetromino_type) == full_bag(),
    {
        *self = GameState::new(high_score);
    }

    /// Whether the active piece, shifted by (`dx`, `dy`), collides
    /// with the walls, the floor or the locked cells.
    pub fn check_collision(&self, dx: i32, dy: i32) -> (r: bool)
        requires
            self.wf(),
        ensures
            r == mat_collides(self.gv(), self.pm(),
                self.current_piece.x + dx, self.current_piece.y + dy),
    {
        board::shape_collides(
            &self.grid,
            &self.current_piece.shape,
            self.current_piece.x as i64 + dx as i64,
            self.current_piece.y as i64 + dy as i64,
        )
    }

    /// Whether the given piece collides with the walls, the floor or
    /// the locked cells.
    pub fn check_collision_piece(&self, piece: &Tetromino) -> (r: bool)
        requires
            self.wf(),
            piece.wf(),
        ensures
            r == mat_collides(self.gv(), piece.mat(), piece.x as int, piece.y as int),
    {
        board::shape_collides(&self.grid, &piece.shape, piece.x as i64, piece.y as i64)
    }

    /// Shifts the piece one column left, unless the shifted position
    /// collides; a colliding shift is rejected without any change.
    pub fn move_left(&mut self)
        requires
            old(self).wf(),
        ensures
            final(self).wf(),
            same_but_piece(*old(self), *final(self)),
            ({
                let p = old(self).current_piece;
                if mat_collides(old(self).gv(), old(self).pm(), p.x - 1, p.y as int) {
                    *final(self) == *old(self)
                } else {
                    final(self).current_piece == (Tetromino { x: (p.x - 1) as i32, ..p })
                }
            }),
    {
        if !self.check_collision(-1, 0) {
            proof {
                board::lemma_free_placement_bounds(
                    self.gv(), self.pm(),
                    self.current_piece.x - 1, self.current_piece.y as int);
            }
            self.current_piece.x = self.current_piece.x - 1;
        }
    }

    /// Shifts the piece one column right, unless the shifted position
    /// collides; a colliding shift is rejected without any change.
    pub fn move_right(&mut self)
        requires
            old(self).wf(),
        ensures
            final(self).wf(),
            same_but_piece(*old(self), *final(self)),
            ({
                let p = old(self).current_piece;
                if mat_collides(old(self).gv(), old(self).pm(), p.x + 1, p.y as int) {
                    *final(self) == *old(self)
                } else {
                    final(self).current_piece == (Tetromino { x: (p.x + 1) as i32, ..p })
                }
            }),
    {
        if !self.check_collision(1, 0) {
            proof {
                board::lemma_free_placement_bounds(
                    self.gv(), self.pm(),
                    self.current_piece.x + 1, self.current_piece.y as int);
            }
            self.current_piece.x = self.current_piece.x + 1;
        }
    }
}

/// Whether `gy` is the active piece's resting row: the piece stands
/// free there, every row between its own and `gy` is free too, and one
/// more row down collides. A piece whose current placement already
/// collides rests where it is.
pub open spec fn ghost_row_of(a: GameState, gy: int) -> bool {
    let p = a.current_piece;
    if mat_collides(a.gv(), a.pm(), p.x as int, p.y as int) {
        gy == p.y
    } else {
        &&& p.y <= gy
        &&& mat_collides(a.gv(), a.pm(), p.x as int, gy + 1)
        &&& forall|e: int| p.y <= e <= gy ==> !mat_collides(a.gv(), a.pm(), p.x as int, e)
    }
}

/// How `spawn_next_piece` relates the state before to the state after:
/// the previewed kind spawns fresh, the preview advances to the bag's
/// new last entry, the fall timer restarts, and a spawn that collides
/// with the board ends the game, fixing the high score. Everything
/// else, the board included, is untouched.
pub open spec fn spawn_rel(a: GameState, b: GameState) -> bool {
    let dead = mat_collides(a.gv(), shape_spec(a.next_piece), spawn_x(), 0);
    &&& b == (GameState {
        current_piece: b.current_piece,
        next_piece: b.next_piece,
        fall_timer: 0u32,
        game_over: b.game_over,
        high_score: b.high_score,
        bag_randomizer: b.bag_randomizer,
        ..a
    })
    &&& is_fresh_spawn(b.current_piece, a.next_piece)
    &&& b.game_over == (a.game_over || dead)
    &&& b.high_score == (if dead && a.score > a.high_score { a.score } else { a.high_score })
    &&& a.bag_randomizer@.len() > 1
        ==> b.bag_randomizer@ == a.bag_randomizer@.drop_last()
    &&& a.bag_randomizer@.len() == 1 ==> b.bag_randomizer@.to_multiset() == full_bag()
    &&& b.next_piece == b.bag_randomizer@.last()
}

impl GameState {
    /// The row the piece would rest on if dropped straight down; free
    /// of side effects so it can be queried every frame for preview.
    pub fn calculate_ghost_y(&self) -> (gy: i32)
        requires
            self.wf(),
        ensures
            ghost_row_of(*self, gy as int),
            self.current_piece.y <= gy <= GRID_HEIGHT,
    {
        let px = self.current_piece.x;
        if self.check_collision(0, 0) {
            return self.current_piece.y;
        }
        proof {
            board::lemma_free_placement_bounds(
                self.gv(), self.pm(), px as int, self.current_piece.y as int);
        }
        let mut gy: i32 = self.current_piece.y;
        let mut next_hit = self.check_collision(0, 1);
        while !next_hit
            invariant
                self.wf(),
                px == self.current_piece.x,
                self.current_piece.y <= gy <= GRID_HEIGHT - 1,
                next_hit == mat_collides(self.gv(), self.pm(), px as int, gy + 1),
                forall|e: int| self.current_piece.y <= e <= gy
                    ==> !mat_collides(self.gv(), self.pm(), px as int, e),
            decreases GRID_HEIGHT - gy,
        {
            gy = gy + 1;
            proof {
                board::lemma_free_placement_bounds(self.gv(), self.pm(), px as int, gy as int);
            }
            next_hit = board::shape_collides(
                &self.grid, &self.current_piece.shape, px as i64, gy as i64 + 1);
        }
        gy
    }

    /// Draws the previewed kind from the bag and spawns it; a spawn
    /// that collides with the board sets game-over, leaving the board
    /// itself untouched, and fixes the high score if it was beaten.
    pub fn spawn_next_piece(&mut self)
        requires
            old(self).wf(),
        ensures
            final(self).wf(),
            spawn_rel(*old(self), *final(self)),
    {
        let next_type = self.bag_randomizer.next();
        assert(next_type == old(self).next_piece);
        self.current_piece = Tetromino::new(next_type);
        self.next_piece = self.bag_randomizer.peek();
        self.fall_timer = 0;
        if self.check_collision_piece(&self.current_piece) {
            self.game_over = true;
            if self.score > self.high_score {
                self.high_score = self.score;
            }
        }
    }

    /// Scans the board for full rows after a lock; any found are
    /// recorded and the line-clear animation starts. With none, the
    /// state is left exactly as it was.
    pub fn clear_lines(&mut self)
        requires
            old(self).wf(),
        ensures
            final(self).wf(),
            ({
                let a = *old(self);
                let b = *final(self);
                if exists|y: int| 0 <= y < GRID_HEIGHT && row_full(a.gv(), y) {
                    &&& b == (GameState {
                        state: State::LineClearAnimation,
                        line_clear_timer: 0u32,
                        lines_being_cleared: b.lines_being_cleared,
                        ..a
                    })
                    &&& forall|y: int| 0 <= y < GRID_HEIGHT
                        ==> (b.lines_being_cleared@.contains(y as usize)
                            <==> row_full(a.gv(), y))
                    &&& rows_sorted(b.lines_being_cleared@)
                } else {
                    b == a
                }
            }),
    {
        let full = board::find_full_rows(&self.grid);
        if full.len() == 0 {
            proof {
                assert forall|y: int| 0 <= y < GRID_HEIGHT
                    implies !row_full(self.gv(), y) by {
                    if row_full(self.gv(), y) {
                        assert(full@.contains(y as usize));
                    }
                }
            }
            return;
        }
        proof {
            assert(full@.contains(full@[0]));
            assert(row_full(self.gv(), full@[0] as int));
        }
        self.lines_being_cleared = full;
        self.state = State::LineClearAnimation;
        self.line_clear_timer = 0;
    }

    /// Finalizes a line clear: removes the pending rows, adds them to
    /// the line count, awards the base score for the count times the
    /// level, recomputes the level from the total lines, and raises
    /// the high score if beaten. With nothing pending this is a no-op.
    pub fn complete_line_clear(&mut self)
        requires
            old(self).wf(),
        ensures
            final(self).wf(),
            old(self).lines_being_cleared@.len() == 0 ==> *final(self) == *old(self),
            old(self).lines_being_cleared@.len() > 0 ==> ({
                let a = *old(self);
                let b = *final(self);
                let k = a.lines_being_cleared@.len() as int;
                &&& b == (GameState {
                    grid: b.grid,
                    lines_cleared: b.lines_cleared,
                    score: b.score,
                    level: b.level,
                    high_score: b.high_score,
                    ..a
                })
                &&& rows_view(b.grid@) == cleared_grid(a.gv(), a.lines_being_cleared@)
                &&& b.lines_cleared == sat32(a.lines_cleared + k)
                &&& b.score == sat32(a.score + line_score(k) * a.level)
                &&& b.level == b.lines_cleared / 10 + 1
                &&& b.high_score
                    == (if b.score > a.high_score { b.score } else { a.high_score })
            }),
    {
        if self.lines_being_cleared.is_empty() {
            return;
        }
        let k = self.lines_being_cleared.len();
        proof {
            board::lemma_sorted_rows_len(self.lines_being_cleared@);
        }
        remove_rows(&mut self.grid, &self.lines_being_cleared);
        self.lines_cleared = self.lines_cleared.saturating_add(k as u32);
        let base: u32 = if k == 1 {
            SCORE_SINGLE
        } else if k == 2 {
            SCORE_DOUBLE
        } else if k == 3 {
            SCORE_TRIPLE
        } else {
            SCORE_TETRIS
        };
        proof {
            assert((base as int) * (self.level as int) <= 800 * (u32::MAX as int))
                by (nonlinear_arith)
                requires
                    base <= 800,
                    self.level <= u32::MAX,
            ;
        }
        let points: u64 = (base as u64) * (self.level as u64);
        let total: u64 = (self.score as u64) + points;
        self.score = if total > u32::MAX as u64 { u32::MAX } else { total as u32 };
        self.level = self.lines_cleared / 10 + 1;
        if self.score > self.high_score {
            self.high_score = self.score;
        }
    }
}

/// How locking the active piece relates the state before to the state
/// after: the piece's cells are written into the board, full rows (if
/// any) are recorded and the animation starts, the previewed kind
/// spawns, hold becomes available again, and the lock and fall timers
/// restart. A spawn that collides on the just-locked board ends the
/// game. Scoring waits for the animation's end.
pub open spec fn lock_step(a: GameState, b: GameState) -> bool {
    let p = a.current_piece;
    let locked = locked_grid(a.gv(), a.pm(), p.x as int, p.y as int, p.tetromino_type);
    let has_full = exists|y: int| 0 <= y < GRID_HEIGHT && row_full(locked, y);
    let dead = mat_collides(locked, shape_spec(a.next_piece), spawn_x(), 0);
    &&& b == (GameState {
        grid: b.grid,
        state: if has_full { State::LineClearAnimation } else { a.state },
        line_clear_timer: if has_full { 0u32 } else { a.line_clear_timer },
        lines_being_cleared: b.lines_being_cleared,
        current_piece: b.current_piece,
        next_piece: b.next_piece,
        can_hold: true,
        fall_timer: 0u32,
        lock_timer: 0u32,
        is_on_ground: false,
        game_over: b.game_over,
        high_score: b.high_score,
        bag_randomizer: b.bag_randomizer,
        ..a
    })
    &&& rows_view(b.grid@) == locked
    &&& if has_full {
        forall|y: int| 0 <= y < GRID_HEIGHT
            ==> (b.lines_being_cleared@.contains(y as usize) <==> row_full(locked, y))
            && rows_sorted(b.lines_being_cleared@)
    } else {
        b.lines_being_cleared == a.lines_being_cleared
    }
    &&& is_fresh_spawn(b.current_piece, a.next_piece)
    &&& b.game_over == (a.game_over || dead)
    &&& b.high_score == (if dead && a.score > a.high_score { a.score } else { a.high_score })
    &&& a.bag_randomizer@.len() > 1 ==> b.bag_randomizer@ == a.bag_randomizer@.drop_last()
    &&& a.bag_randomizer@.len() == 1 ==> b.bag_randomizer@.to_multiset() == full_bag()
    &&& b.next_piece == b.bag_randomizer@.last()
}

impl GameState {
    /// Merges the active piece into the board, scans for full rows,
    /// spawns the previewed kind and re-enables hold.
    pub fn lock_piece(&mut self)
        requires
            old(self).wf(),
        ensures
            final(self).wf(),
            lock_step(*old(self), *final(self)),
    {
        let px = self.current_piece.x;
        let py = self.current_piece.y;
        let t = self.current_piece.tetromino_type;
        let ghost a = *old(self);
        lock_cells(&mut self.grid, &self.current_piece.shape, px, py, t);
        let ghost m1 = *self;
        self.clear_lines();
        self.spawn_next_piece();
        self.can_hold = true;
        self.lock_timer = 0;
        self.is_on_ground = false;
        proof {
            let b = *self;
            let locked = locked_grid(a.gv(), a.pm(), px as int, py as int, t);
            let has_full = exists|y: int| 0 <= y < GRID_HEIGHT && row_full(locked, y);
            let dead = mat_collides(locked, shape_spec(a.next_piece), spawn_x(), 0);
            assert(m1.gv() == locked);
            assert(m1 == (GameState { grid: m1.grid, ..a }));
            assert(rows_view(b.grid@) == locked);
            assert(is_fresh_spawn(b.current_piece, a.next_piece));
            assert(b.game_over == (a.game_over || dead));
            assert(b.high_score == (if dead && a.score > a.high_score {
                a.score
            } else {
                a.high_score
            }));
            assert(b.next_piece == b.bag_randomizer@.last());
            assert(if has_full {
                forall|y: int| 0 <= y < GRID_HEIGHT
                    ==> (b.lines_being_cleared@.contains(y as usize) <==> row_full(locked, y))
                    && rows_sorted(b.lines_being_cleared@)
            } else {
                b.lines_being_cleared == a.lines_being_cleared
            });
            assert(b == (GameState {
                grid: b.grid,
                state: if has_full { State::LineClearAnimation } else { a.state },
                line_clear_timer: if has_full { 0u32 } else { a.line_clear_timer },
                lines_being_cleared: b.lines_being_cleared,
                current_piece: b.current_piece,
                next_piece: b.next_piece,
                can_hold: true,
                fall_timer: 0u32,
                lock_timer: 0u32,
                is_on_ground: false,
                game_over: b.game_over,
                high_score: b.high_score,
                bag_randomizer: b.bag_randomizer,
                ..a
            }));
        }
    }

    /// Drops the piece straight onto its resting row, awarding two
    /// points per row descended, then locks it at once.
    pub fn hard_drop(&mut self)
        requires
            old(self).wf(),
        ensures
            final(self).wf(),
            exists|gy: int| {
                &&& #[trigger] ghost_row_of(*old(self), gy)
                &&& lock_step(
                    (GameState {
                        current_piece: (Tetromino {
                            y: gy as i32,
                            ..old(self).current_piece
                        }),
                        score: sat32(old(self).score
                            + SCORE_HARD_DROP * (gy - old(self).current_piece.y)),
                        ..*old(self)
                    }),
                    *final(self),
                )
            },
    {
        let gy = self.calculate_ghost_y();
        let dist = gy - self.current_piece.y;
        self.score = self.score.saturating_add((dist as u32) * SCORE_HARD_DROP);
        self.current_piece.y = gy;
        proof {
            assert(ghost_row_of(*old(self), gy as int));
        }
        self.lock_piece();
    }

    /// Sets the active piece's kind aside. The first hold of a
    /// piece-lifetime stores the kind and spawns the previewed one; a
    /// hold with a kind already stored swaps them, the stored kind
    /// spawning fresh. Holding again before the next lock is rejected
    /// without any change.
    pub fn hold_piece(&mut self)
        requires
            old(self).wf(),
        ensures
            final(self).wf(),
            !old(self).can_hold ==> *final(self) == *old(self),
            old(self).can_hold && old(self).held_piece is Some ==> ({
                let a = *old(self);
                let b = *final(self);
                &&& b == (GameState {
                    current_piece: b.current_piece,
                    held_piece: Some(a.current_piece.tetromino_type),
                    can_hold: false,
                    ..a
                })
                &&& (a.held_piece matches Some(h) && is_fresh_spawn(b.current_piece, h))
            }),
            old(self).can_hold && old(self).held_piece is None ==> ({
                let a = *old(self);
                let b = *final(self);
                &&& !b.can_hold
                &&& spawn_rel(
                    (GameState { held_piece: Some(a.current_piece.tetromino_type), ..a }),
                    (GameState { can_hold: true, ..b }),
                )
            }),
    {
        if !self.can_hold {
            return;
        }
        let current_type = self.current_piece.tetromino_type;
        match self.held_piece {
            Some(held_type) => {
                self.current_piece = Tetromino::new(held_type);
                self.held_piece = Some(current_type);
            },
            None => {
                self.held_piece = Some(current_type);
                self.spawn_next_piece();
            },
        }
        self.can_hold = false;
    }
}

/// The fixed wall-kick list: the unshifted placement, then right,
/// left, up, up-right and up-left, tried in that order at every
/// rotation state.
pub open spec fn kick_offsets() -> Seq<(int, int)> {
    seq![(0int, 0int), (1int, 0int), (-1int, 0int), (0int, -1int), (1int, -1int), (-1int, -1int)]
}

/// Whether kick candidate `k` places the rotated matrix `m` free of
/// collision, offsetting the piece's origin by the k-th kick.
pub open spec fn kick_free(gv: Seq<Seq<Cell>>, m: Seq<Seq<u8>>, p: Tetromino, k: int) -> bool {
    !mat_collides(gv, m, p.x + kick_offsets()[k].0, p.y + kick_offsets()[k].1)
}

/// How a rotation command relates the piece before to the piece
/// after, given the matrix `m` and rotation index `rot` it aims for:
/// the piece takes `m` and `rot` at the first collision-free offset of
/// the kick list; if every offset collides, the rotation is discarded
/// and the piece is exactly as it was.
pub open spec fn rotate_rel(
    gv: Seq<Seq<Cell>>, p: Tetromino, m: Seq<Seq<u8>>, rot: u8, q: Tetromino,
) -> bool {
    if exists|k: int| 0 <= k < 6 && kick_free(gv, m, p, k) {
        exists|k: int| {
            &&& 0 <= k < 6
            &&& kick_free(gv, m, p, k)
            &&& forall|j: int| 0 <= j < k ==> !kick_free(gv, m, p, j)
            &&& q.tetromino_type == p.tetromino_type
            &&& q.mat() == m
            &&& q.rotation == rot
            &&& q.x == p.x + kick_offsets()[k].0
            &&& q.y == p.y + kick_offsets()[k].1
        }
    } else {
        q == p
    }
}

/// The matrix a clockwise rotation command aims for: the piece's own
/// for the O kind, which never rotates, else the rotated one.
pub open spec fn cw_target_mat(p: Tetromino) -> Seq<Seq<u8>> {
    if p.tetromino_type == TetrominoType::O { p.mat() } else { rot_cw(p.mat()) }
}

/// The rotation index a clockwise rotation command aims for.
pub open spec fn cw_target_rot(p: Tetromino) -> u8 {
    if p.tetromino_type == TetrominoType::O {
        p.rotation
    } else {
        (((p.rotation + 1) % 4) as u8)
    }
}

/// The matrix a counter-clockwise rotation command aims for.
pub open spec fn ccw_target_mat(p: Tetromino) -> Seq<Seq<u8>> {
    if p.tetromino_type == TetrominoType::O { p.mat() } else { rot_ccw(p.mat()) }
}

/// The rotation index a counter-clockwise rotation command aims for.
pub open spec fn ccw_target_rot(p: Tetromino) -> u8 {
    if p.tetromino_type == TetrominoType::O {
        p.rotation
    } else {
        (((p.rotation + 3) % 4) as u8)
    }
}

/// A hard drop awards exactly two points per row descended, and
/// nothing else before its lock: the lock keeps the score, and a
/// clear, if one starts, is scored only when its animation finalizes.
/// Stated for awards that stay within the `u32` range; at the
/// ceiling the score saturates instead.
pub proof fn lemma_hard_drop_scores_two_per_row(a: GameState, b: GameState, gy: int)
    requires
        ghost_row_of(a, gy),
        lock_step(
            (GameState {
                current_piece: (Tetromino { y: gy as i32, ..a.current_piece }),
                score: sat32(a.score + SCORE_HARD_DROP * (gy - a.current_piece.y)),
                ..a
            }),
            b,
        ),
        a.score + SCORE_HARD_DROP * (gy - a.current_piece.y) <= u32::MAX,
    ensures
        b.score == a.score + SCORE_HARD_DROP * (gy - a.current_piece.y),
{
    assert(gy >= a.current_piece.y);
    let mid = GameState {
        current_piece: (Tetromino { y: gy as i32, ..a.current_piece }),
        score: sat32(a.score + SCORE_HARD_DROP * (gy - a.current_piece.y)),
        ..a
    };
    assert(b.score == mid.score);
}

/// A rotation whose unshifted placement is free needs no kick: the
/// piece keeps its origin and only takes the target matrix and index.
pub proof fn lemma_rotation_in_place(
    gv: Seq<Seq<Cell>>, p: Tetromino, m: Seq<Seq<u8>>, rot: u8, q: Tetromino,
)
    requires
        rotate_rel(gv, p, m, rot, q),
        kick_free(gv, m, p, 0),
    ensures
        q.tetromino_type == p.tetromino_type,
        q.mat() == m,
        q.rotation == rot,
        q.x == p.x,
        q.y == p.y,
{
    let k = choose|k: int| {
        &&& 0 <= k < 6
        &&& kick_free(gv, m, p, k)
        &&& forall|j: int| 0 <= j < k ==> !kick_free(gv, m, p, j)
        &&& q.tetromino_type == p.tetromino_type
        &&& q.mat() == m
        &&& q.rotation == rot
        &&& q.x == p.x + kick_offsets()[k].0
        &&& q.y == p.y + kick_offsets()[k].1
    };
    assert(k == 0);
}

/// A clockwise rotation command followed by a counter-clockwise one,
/// both finding their unshifted placement free, restores a non-O
/// piece's occupancy matrix, origin and rotation index exactly.
pub proof fn lemma_rotate_commands_round_trip(
    gv: Seq<Seq<Cell>>, p0: Tetromino, p1: Tetromino, p2: Tetromino,
)
    requires
        p0.rotation < 4,
        p0.tetromino_type != TetrominoType::O,
        rotate_rel(gv, p0, cw_target_mat(p0), cw_target_rot(p0), p1),
        kick_free(gv, cw_target_mat(p0), p0, 0),
        crate::tetromino::mat_dims(p0.mat()),
        rotate_rel(gv, p1, ccw_target_mat(p1), ccw_target_rot(p1), p2),
        kick_free(gv, ccw_target_mat(p1), p1, 0),
    ensures
        p2.mat() == p0.mat(),
        p2.x == p0.x,
        p2.y == p0.y,
        p2.rotation == p0.rotation,
{
    lemma_rotation_in_place(gv, p0, cw_target_mat(p0), cw_target_rot(p0), p1);
    lemma_rotation_in_place(gv, p1, ccw_target_mat(p1), ccw_target_rot(p1), p2);
    crate::tetromino::lemma_rotation_round_trip(p0.mat());
}

/// Any rotation command whose unshifted placement is free leaves an O
/// piece's occupied cells exactly where they were: the O kind's target
/// matrix is its own, and no kick moves it.
pub proof fn lemma_o_piece_rotation_keeps_cells(gv: Seq<Seq<Cell>>, p: Tetromino, q: Tetromino)
    requires
        p.tetromino_type == TetrominoType::O,
        rotate_rel(gv, p, cw_target_mat(p), cw_target_rot(p), q)
            || rotate_rel(gv, p, ccw_target_mat(p), ccw_target_rot(p), q),
        kick_free(gv, p.mat(), p, 0),
    ensures
        q.mat() == p.mat(),
        q.x == p.x,
        q.y == p.y,
        q.rotation == p.rotation,
        forall|cx: int, cy: int| q.covers(cx, cy) == p.covers(cx, cy),
{
    if rotate_rel(gv, p, cw_target_mat(p), cw_target_rot(p), q) {
        lemma_rotation_in_place(gv, p, cw_target_mat(p), cw_target_rot(p), q);
    } else {
        lemma_rotation_in_place(gv, p, ccw_target_mat(p), ccw_target_rot(p), q);
    }
    assert forall|cx: int, cy: int| q.covers(cx, cy) == p.covers(cx, cy) by {
        if q.covers(cx, cy) {
            let (i, j): (int, int) = choose|i: int, j: int|
                0 <= i < 4 && 0 <= j < 4 && crate::tetromino::mat_cell(q.mat(), i, j)
                    && cx == q.x + j && cy == q.y + i;
            assert(p.covers(cx, cy));
        }
        if p.covers(cx, cy) {
            let (i, j): (int, int) = choose|i: int, j: int|
                0 <= i < 4 && 0 <= j < 4 && crate::tetromino::mat_cell(p.mat(), i, j)
                    && cx == p.x + j && cy == p.y + i;
            assert(q.covers(cx, cy));
        }
    }
}

impl GameState {
    /// Gives the active piece the matrix `cand_shape` and rotation
    /// index `cand_rot` at the first collision-free kick offset, or
    /// leaves it untouched if all six offsets collide.
    fn try_rotation(&mut self, cand_shape: Vec<Vec<u8>>, cand_rot: u8)
        requires
            old(self).wf(),
            crate::tetromino::shape_wf(rows_view(cand_shape@)),
            cand_rot < 4,
        ensures
            final(self).wf(),
            same_but_piece(*old(self), *final(self)),
            rotate_rel(
                old(self).gv(), old(self).current_piece, rows_view(cand_shape@), cand_rot,
                final(self).current_piece,
            ),
    {
        let ghost gv = self.gv();
        let ghost p = self.current_piece;
        let ghost m = rows_view(cand_shape@);
        let mut hit: usize = 6;
        let mut k: usize = 0;
        while k < 6 && hit == 6
            invariant
                *self == *old(self),
                self.wf(),
                gv == self.gv(),
                p == self.current_piece,
                m == rows_view(cand_shape@),
                crate::tetromino::mat_dims(m),
                k <= 6,
                hit == 6 ==> forall|j: int| 0 <= j < k ==> !kick_free(gv, m, p, j),
                hit != 6 ==> ({
                    &&& hit < 6
                    &&& kick_free(gv, m, p, hit as int)
                    &&& forall|j: int| 0 <= j < hit ==> !kick_free(gv, m, p, j)
                }),
            decreases 6 - k,
        {
            let (dx, dy): (i32, i32) = if k == 0 {
                (0, 0)
            } else if k == 1 {
                (1, 0)
            } else if k == 2 {
                (-1, 0)
            } else if k == 3 {
                (0, -1)
            } else if k == 4 {
                (1, -1)
            } else {
                (-1, -1)
            };
            proof {
                assert(kick_offsets()[k as int] == (dx as int, dy as int));
            }
            let collides = board::shape_collides(
                &self.grid,
                &cand_shape,
                self.current_piece.x as i64 + dx as i64,
                self.current_piece.y as i64 + dy as i64,
            );
            if !collides {
                hit = k;
            }
            k = k + 1;
        }
        if hit < 6 {
            let (dx, dy): (i32, i32) = if hit == 0 {
                (0, 0)
            } else if hit == 1 {
                (1, 0)
            } else if hit == 2 {
                (-1, 0)
            } else if hit == 3 {
                (0, -1)
            } else if hit == 4 {
                (1, -1)
            } else {
                (-1, -1)
            };
            proof {
                assert(kick_offsets()[hit as int] == (dx as int, dy as int));
            }
            let nx = self.current_piece.x + dx;
            let ny = self.current_piece.y + dy;
            proof {
                board::lemma_free_placement_bounds(gv, m, nx as int, ny as int);
                if ny < -4 {
                    // Only the down-kicks lower the origin, and only from
                    // row -4, where the matrix sits wholly above the top;
                    // there collision depends on the columns alone, so the
                    // matching sideways kick, tried earlier, would have
                    // been free already.
                    assert(dy == -1 && p.y == -4);
                    assert(3 <= hit < 6);
                    let jj = hit - 3;
                    assert(kick_offsets()[jj as int].0 == dx as int
                        && kick_offsets()[jj as int].1 == 0);
                    board::lemma_above_top_collision(gv, m, p.x + dx as int, p.y - 1);
                    board::lemma_above_top_collision(gv, m, p.x + dx as int, p.y as int);
                    assert(kick_free(gv, m, p, jj as int));
                    assert(false);
                }
            }
            self.current_piece = Tetromino {
                tetromino_type: self.current_piece.tetromino_type,
                shape: cand_shape,
                x: nx,
                y: ny,
                rotation: cand_rot,
            };
            proof {
                let q = self.current_piece;
                assert(kick_free(gv, m, p, hit as int));
                assert(q.mat() == m);
                assert(rotate_rel(gv, p, m, cand_rot, q));
            }
        } else {
            proof {
                assert(forall|j: int| 0 <= j < 6 ==> !kick_free(gv, m, p, j));
                assert(!(exists|j: int| 0 <= j < 6 && kick_free(gv, m, p, j)));
            }
        }
    }

    /// Rotates the piece a quarter turn clockwise, trying the wall
    /// kicks in order; if every placement collides the rotation is
    /// discarded whole. The O kind keeps its matrix and may only be
    /// kicked.
    pub fn rotate_cw(&mut self)
        requires
            old(self).wf(),
        ensures
            final(self).wf(),
            same_but_piece(*old(self), *final(self)),
            rotate_rel(
                old(self).gv(),
                old(self).current_piece,
                cw_target_mat(old(self).current_piece),
                cw_target_rot(old(self).current_piece),
                final(self).current_piece,
            ),
    {
        let cand_shape: Vec<Vec<u8>>;
        let cand_rot: u8;
        if self.current_piece.tetromino_type == TetrominoType::O {
            cand_shape = crate::tetromino::copy_shape(&self.current_piece.shape);
            cand_rot = self.current_piece.rotation;
        } else {
            cand_shape = crate::tetromino::rotated_cw_shape(&self.current_piece.shape);
            cand_rot = (self.current_piece.rotation + 1) % 4;
            proof {
                crate::tetromino::lemma_rot_nonempty(self.pm());
            }
        }
        self.try_rotation(cand_shape, cand_rot);
    }

    /// Rotates the piece a quarter turn counter-clockwise, trying the
    /// wall kicks in order; if every placement collides the rotation
    /// is discarded whole. The O kind keeps its matrix and may only be
    /// kicked.
    pub fn rotate_ccw(&mut self)
        requires
            old(self).wf(),
        ensures
            final(self).wf(),
            same_but_piece(*old(self), *final(self)),
            rotate_rel(
                old(self).gv(),
                old(self).current_piece,
                ccw_target_mat(old(self).current_piece),
                ccw_target_rot(old(self).current_piece),
                final(self).current_piece,
            ),
    {
        let cand_shape: Vec<Vec<u8>>;
        let cand_rot: u8;
        if self.current_piece.tetromino_type == TetrominoType::O {
            cand_shape = crate::tetromino::copy_shape(&self.current_piece.shape);
            cand_rot = self.current_piece.rotation;
        } else {
            cand_shape = crate::tetromino::rotated_ccw_shape(&self.current_piece.shape);
            cand_rot = (self.current_piece.rotation + 3) % 4;
            proof {
                crate::tetromino::lemma_rot_nonempty(self.pm());
            }
        }
        self.try_rotation(cand_shape, cand_rot);
    }
}

/// The line-clear animation's end: the pending rows are removed,
/// their count is scored at the current level and added to the total,
/// the level is recomputed from the total, the high score is raised if
/// beaten, and play resumes with timers and pending rows reset.
pub open spec fn finalize_step(a: GameState, b: GameState) -> bool {
    let k = a.lines_being_cleared@.len() as int;
    &&& b == (GameState {
        state: State::Playing,
        line_clear_timer: 0u32,
        lines_being_cleared: b.lines_being_cleared,
        grid: b.grid,
        lines_cleared: b.lines_cleared,
        score: b.score,
        level: b.level,
        high_score: b.high_score,
        ..a
    })
    &&& b.lines_being_cleared@.len() == 0
    &&& if k == 0 {
        &&& b.grid == a.grid
        &&& b.score == a.score
        &&& b.level == a.level
        &&& b.lines_cleared == a.lines_cleared
        &&& b.high_score == a.high_score
    } else {
        &&& rows_view(b.grid@) == cleared_grid(a.gv(), a.lines_being_cleared@)
        &&& b.lines_cleared == sat32(a.lines_cleared + k)
        &&& b.score == sat32(a.score + line_score(k) * a.level)
        &&& b.level == b.lines_cleared / 10 + 1
        &&& b.high_score == (if b.score > a.high_score { b.score } else { a.high_score })
    }
}

/// An update while the animation runs: the animation timer absorbs
/// the delta; when it reaches the threshold the clear is finalized,
/// otherwise nothing else changes.
pub open spec fn anim_step(a: GameState, b: GameState, dt: u32) -> bool {
    let t2 = sat32(a.line_clear_timer + dt);
    if t2 >= LINE_CLEAR_ANIMATION_MS {
        finalize_step(a, b)
    } else {
        b == (GameState { line_clear_timer: t2, ..a })
    }
}

/// Whether this playing-phase update expires the lock delay: the
/// piece rests on its support and the lock timer, delta added,
/// reaches the threshold. The piece then locks even if the player is
/// still steering.
pub open spec fn lock_fires(a: GameState, dt: u32) -> bool {
    let p = a.current_piece;
    mat_collides(a.gv(), a.pm(), p.x as int, p.y + 1)
        && sat32(a.lock_timer + dt) >= LOCK_DELAY_MS
}

/// A playing-phase update on which the lock delay does not expire:
/// groundedness is recomputed, the lock timer accumulates on the
/// ground and resets in the air, and the fall timer accumulates
/// against the gravity interval — on crossing it resets and, if the
/// piece is airborne, gravity pulls it one row down, a soft drop
/// scoring one point per row.
pub open spec fn playing_step(a: GameState, b: GameState, dt: u32, soft_drop: bool) -> bool {
    let p = a.current_piece;
    let grounded = mat_collides(a.gv(), a.pm(), p.x as int, p.y + 1);
    let interval = if soft_drop {
        SOFT_DROP_INTERVAL_MS as int
    } else {
        gravity_interval(a.level as int)
    };
    let ft = sat32(a.fall_timer + dt);
    let falls = ft >= interval && !grounded;
    &&& b == (GameState {
        current_piece: b.current_piece,
        score: b.score,
        fall_timer: b.fall_timer,
        lock_timer: b.lock_timer,
        is_on_ground: grounded,
        ..a
    })
    &&& b.current_piece == (if falls { (Tetromino { y: (p.y + 1) as i32, ..p }) } else { p })
    &&& b.score == (if falls && soft_drop { sat32(a.score + SCORE_SOFT_DROP) } else { a.score })
    &&& b.fall_timer == (if ft >= interval { 0u32 } else { ft })
    &&& b.lock_timer == (if grounded { sat32(a.lock_timer + dt) } else { 0u32 })
}

/// The per-frame contract: a finished game ignores updates; while
/// animating the delta drives the animation; otherwise either the
/// lock delay expires and the piece locks, or an ordinary gravity
/// step happens.
pub open spec fn update_rel(a: GameState, b: GameState, dt: u32, soft_drop: bool) -> bool {
    if a.game_over {
        b == a
    } else if a.state == State::LineClearAnimation {
        anim_step(a, b, dt)
    } else if lock_fires(a, dt) {
        lock_step(a, b)
    } else {
        playing_step(a, b, dt, soft_drop)
    }
}

impl GameState {
    /// Advances the machine by `delta_ms` milliseconds of play with
    /// the soft-drop key held or not; see [`update_rel`] for the full
    /// step relation.
    pub fn update(&mut self, delta_ms: u32, soft_drop: bool)
        requires
            old(self).wf(),
        ensures
            final(self).wf(),
            update_rel(*old(self), *final(self), delta_ms, soft_drop),
    {
        if self.game_over {
            return;
        }
        if self.state == State::LineClearAnimation {
            self.line_clear_timer = self.line_clear_timer.saturating_add(delta_ms);
            if self.line_clear_timer >= LINE_CLEAR_ANIMATION_MS {
                self.complete_line_clear();
                self.state = State::Playing;
                self.line_clear_timer = 0;
                self.lines_being_cleared = Vec::new();
            }
            return;
        }
        let ghost a = *old(self);
        let d = FALL_INTERVAL_MS / self.level;
        let fall_interval = if soft_drop {
            SOFT_DROP_INTERVAL_MS
        } else if d < 1 {
            1
        } else {
            d
        };
        self.fall_timer = self.fall_timer.saturating_add(delta_ms);
        let was_on_ground = self.is_on_ground;
        let grounded = self.check_collision(0, 1);
        self.is_on_ground = grounded;
        if grounded {
            self.lock_timer = self.lock_timer.saturating_add(delta_ms);
            if self.lock_timer >= LOCK_DELAY_MS {
                self.lock_piece();
                assert(lock_fires(a, delta_ms));
                assert(lock_step(a, *self));
                assert(self.fall_timer == 0 && fall_interval >= 1);
            }
        } else {
            self.lock_timer = 0;
        }
        if self.fall_timer >= fall_interval {
            self.fall_timer = 0;
            if !self.is_on_ground {
                proof {
                    board::lemma_free_placement_bounds(
                        self.gv(), self.pm(),
                        self.current_piece.x as int, self.current_piece.y + 1);
                }
                self.current_piece.y = self.current_piece.y + 1;
                if soft_drop {
                    self.score = self.score.saturating_add(SCORE_SOFT_DROP);
                }
            }
        }
        if was_on_ground && !self.is_on_ground {
            self.lock_timer = 0;
        }
    }
}

/// Builds the empty board: `GRID_HEIGHT` empty rows.
fn empty_grid() -> (r: Vec<Vec<Cell>>)
    ensures
        grid_wf(rows_view(r@)),
        forall|x: int, y: int| 0 <= x < GRID_WIDTH && 0 <= y < GRID_HEIGHT
            ==> !cell_filled(rows_view(r@), x, y),
{
    let mut r: Vec<Vec<Cell>> = Vec::new();
    for y in 0..GRID_HEIGHT
        invariant
            r@.len() == y,
            forall|yy: int| 0 <= yy < y ==> (#[trigger] r@[yy])@ == empty_row(),
    {
        let mut row: Vec<Cell> = Vec::new();
        for x in 0..GRID_WIDTH
            invariant
                row@.len() == x,
                forall|xx: int| 0 <= xx < x ==> row@[xx] is None,
        {
            row.push(None);
        }
        proof {
            assert(row@ =~= empty_row());
        }
        r.push(row);
    }
    proof {
        assert forall|y: int| 0 <= y < GRID_HEIGHT
            implies (#[trigger] rows_view(r@)[y]).len() == GRID_WIDTH by {
            assert(rows_view(r@)[y] == r@[y]@);
        }
        assert forall|x: int, y: int| 0 <= x < GRID_WIDTH && 0 <= y < GRID_HEIGHT
            implies !cell_filled(rows_view(r@), x, y) by {
            assert(rows_view(r@)[y] == r@[y]@);
            assert(r@[y]@[x] is None);
        }
    }
    r
}

} // verus!
