//! The update engine: the state of one game and the transition that a tick
//! of the clock makes on it.
//!
//! Time is counted in milliseconds and advances by [`DELAY`] on every tick.
//! The engine draws no random numbers and polls no keys: each tick is handed
//! the sample of the keys and the draws that it may use.

use crate::block::{
    lemma_drop_row_rests, lemma_free_is_inside, lemma_spawn_is_inside, lemma_walls_bound_pivot,
    Block, TETRIS_H,
};
use crate::grid::{
    cleared, clear_rows, count_rows, flagged_in, full_row_flags, full_rows, imprinted,
    lemma_clear_after_peeling, lemma_cleared_within, lemma_flagged_bounds,
    lemma_imprinted_within, lemma_peel_goes_on, lemma_peeled_within, peel_columns, peeled,
    peeled_from, row_full, settled,
    set_grid, GRID_CELLS,
};
use crate::queue::{
    advance, advanced, holds_types, is_bag, lemma_advanced_is_bag, lemma_refill_is_bag,
    lemma_shuffled_keeps_distinct, picks_fit, refilled, restore_front, shuffle, shuffled,
    tail_distinct, QUEUE_LEN,
};
use vstd::prelude::*;

verus! {

/// Length of a tick.
pub const DELAY: i32 = 10;

/// Time between two steps of gravity.
pub const FALL_TIME: i32 = 1500;

/// Time between two steps of a soft drop.
pub const DROP_TIME: i32 = 25;

/// Time between two steps of the line-clear animation.
pub const CLEAR_TIME: i32 = 25;

/// Time a side key is held before the move repeats.
pub const SIDE_MOVE_DELAY: i32 = 200;

/// Time between two repeats of a side move.
pub const SIDE_MOVE_TIME: i32 = 50;

/// Steps of the line-clear animation: one for each pair of columns.
pub const CLEAR_STEPS: usize = 5;

/// The most that one tick can add to the score: a piece and every row.
pub const TICK_SCORE: u128 = 241;

/// The keys as sampled for one tick.
#[derive(Clone, Copy, Debug)]
pub struct Input {
    /// The restart key went down.
    pub restart: bool,
    /// The hold key went down.
    pub hold: bool,
    /// The left key went down.
    pub left_pressed: bool,
    /// The right key went down.
    pub right_pressed: bool,
    /// The left key came up.
    pub left_released: bool,
    /// The right key came up.
    pub right_released: bool,
    /// The left key is down.
    pub left_down: bool,
    /// The right key is down.
    pub right_down: bool,
    /// The rotate key went down.
    pub rotate: bool,
    /// The hard-drop key went down.
    pub hard_drop: bool,
    /// The soft-drop key is down.
    pub soft_drop: bool,
}

/// The random draws that one tick may use. Only the start of a new game
/// draws; a tick that starts none ignores them.
#[derive(Clone, Copy, Debug)]
pub struct Rolls {
    /// Draws for the shuffle of a new queue, each below 7.
    pub restart: [usize; QUEUE_LEN],
}

impl Rolls {
    /// Every draw is a position of the shuffle it is for.
    pub open spec fn fit(&self) -> bool {
        picks_fit(self.restart@, QUEUE_LEN as int)
    }
}

/// The state of one game.
pub struct MainLoop {
    /// Time since the last step of gravity.
    pub elapsed: i32,
    /// Time since the last step of a soft drop or of the clear animation.
    pub elapsed1: i32,
    /// Time until the held side move repeats.
    pub elapsed2: i32,
    /// Direction of the held side move: -1 left, 1 right, 0 none.
    pub dir: i8,
    /// The piece in play.
    pub block: Block,
    /// The settled cells, row by row from the top.
    pub grid: [usize; GRID_CELLS],
    /// The queue; its front is the type of the piece in play.
    pub blocks_order: [usize; QUEUE_LEN],
    pub score: u128,
    pub best_score: u128,
    pub game_over: bool,
    /// Steps of the clear animation still to make; 0 outside it.
    pub line_clear: usize,
    /// The rows that the clear animation is removing.
    pub full_lines: [bool; TETRIS_H],
    /// The held piece type plus one; 0 while nothing is held.
    pub hold_block_type: usize,
    /// Whether the hold was used since the last lock.
    pub hold_block: bool,
}

/// The game as a mathematical value.
pub struct State {
    pub elapsed: int,
    pub elapsed1: int,
    pub elapsed2: int,
    pub dir: int,
    pub block: Block,
    pub grid: Seq<usize>,
    pub queue: Seq<usize>,
    pub score: nat,
    pub best_score: nat,
    pub game_over: bool,
    pub line_clear: nat,
    pub full_lines: Seq<bool>,
    pub hold_block_type: nat,
    pub hold_block: bool,
}

impl View for MainLoop {
    type V = State;

    open spec fn view(&self) -> State {
        State {
            elapsed: self.elapsed as int,
            elapsed1: self.elapsed1 as int,
            elapsed2: self.elapsed2 as int,
            dir: self.dir as int,
            block: self.block,
            grid: self.grid@,
            queue: self.blocks_order@,
            score: self.score as nat,
            best_score: self.best_score as nat,
            game_over: self.game_over,
            line_clear: self.line_clear as nat,
            full_lines: self.full_lines@,
            hold_block_type: self.hold_block_type as nat,
            hold_block: self.hold_block,
        }
    }
}

/// The grid with no settled cell.
pub open spec fn empty_grid() -> Seq<usize> {
    Seq::new(GRID_CELLS as nat, |k: int| 0usize)
}

/// No row flagged.
pub open spec fn no_rows() -> Seq<bool> {
    Seq::new(TETRIS_H as nat, |y: int| false)
}

impl State {
    /// What holds of the game at every moment, also in the middle of a tick.
    #[verifier::opaque]
    pub open spec fn sane(self) -> bool {
        &&& 0 <= self.elapsed <= FALL_TIME + DELAY
        &&& 0 <= self.elapsed1 <= DROP_TIME + DELAY
        &&& 0 <= self.elapsed1 <= CLEAR_TIME + DELAY
        &&& -DELAY <= self.elapsed2 <= SIDE_MOVE_DELAY
        &&& -1 <= self.dir <= 1
        &&& self.block.block_type < 7
        &&& 0 <= self.block.rot <= 3
        &&& self.block.within_walls()
        &&& -5 <= self.block.pos[1] <= 53
        &&& self.grid.len() == GRID_CELLS
        &&& forall|k: int| 0 <= k < GRID_CELLS ==> self.grid[k] <= 7
        &&& holds_types(self.queue)
        &&& tail_distinct(self.queue)
        &&& self.queue[0] == self.block.block_type
        &&& self.hold_block_type <= 7
        &&& self.hold_block_type == 0 ==> is_bag(self.queue)
        &&& self.line_clear <= CLEAR_STEPS
        &&& self.line_clear != 0 ==> self.dir == 0
        &&& self.full_lines.len() == TETRIS_H
        &&& self.score <= self.best_score
    }

    /// What a tick asks of the game it starts from: the clocks have not run
    /// out and the piece is not below the floor. The piece may lie on
    /// settled cells; the tick's lock check then raises it.
    pub open spec fn ready(self) -> bool {
        &&& self.sane()
        &&& self.elapsed < FALL_TIME
        &&& self.elapsed1 < DROP_TIME
        &&& self.elapsed1 < CLEAR_TIME
        &&& 0 <= self.elapsed2
        &&& self.block.pos[1] <= 49
    }

    /// The game can add a tick's worth to its score. Only a tick of play
    /// scores: a game that is over or in a clear needs no room.
    pub open spec fn has_room(self) -> bool {
        !self.game_over && self.line_clear == 0 ==> self.score + TICK_SCORE <= u128::MAX
    }

    /// What holds of the game between two ticks: it is ready for the next,
    /// and the piece in play is not blocked.
    pub open spec fn wf(self) -> bool {
        &&& self.ready()
        &&& !self.block.collides(self.grid)
    }

    /// The piece moved `dx` cells sideways, unless it is blocked there.
    pub open spec fn nudged(self, dx: int) -> State {
        let moved = self.block.shifted(2 * dx, 0);
        if moved.collides(self.grid) {
            self
        } else {
            State { block: moved, ..self }
        }
    }

    /// The hold action. It does nothing if the hold was used since the last
    /// lock. The first hold of a game banks the piece in play and moves the
    /// queue up; the new piece enters play raised clear of the settled cells.
    /// Every later hold exchanges the piece in play with the banked one,
    /// which enters play at its spawn pose.
    pub open spec fn held(self) -> State {
        if self.hold_block {
            self
        } else if self.hold_block_type == 0 {
            let queue = advanced(self.queue);
            State {
                hold_block: true,
                hold_block_type: (self.block.block_type + 1) as nat,
                queue,
                block: Block::spawn(queue[0]).lifted(self.grid),
                ..self
            }
        } else {
            let banked = (self.hold_block_type - 1) as usize;
            State {
                hold_block: true,
                hold_block_type: (self.block.block_type + 1) as nat,
                queue: self.queue.update(0, banked),
                block: Block::spawn(banked),
                ..self
            }
        }
    }

    /// The side keys going down and coming up. A key that goes down moves
    /// the piece at once, becomes the held direction and starts the repeat
    /// delay; the held direction ends when its key comes up.
    pub open spec fn steered(self, input: Input) -> State {
        let a = if input.left_pressed {
            State { dir: -1, elapsed2: SIDE_MOVE_DELAY as int, ..self.nudged(-1) }
        } else {
            self
        };
        let b = if input.right_pressed {
            State { dir: 1, elapsed2: SIDE_MOVE_DELAY as int, ..a.nudged(1) }
        } else {
            a
        };
        if (input.left_released && b.dir == -1) || (input.right_released && b.dir == 1) {
            State { dir: 0, ..b }
        } else {
            b
        }
    }

    /// The rotate action: a quarter turn with its kicks.
    pub open spec fn turned(self) -> State {
        State { block: self.block.kicked(self.grid), ..self }
    }

    /// The hard drop: the piece goes down until it is blocked. It is locked
    /// by the check that ends the tick.
    pub open spec fn hard_dropped(self) -> State {
        State { block: self.block.dropped(self.grid), ..self }
    }

    /// The repeat of a held side move, once its timer has run out.
    pub open spec fn repeated(self, input: Input) -> State {
        if self.elapsed2 <= 0 {
            let s = State { elapsed2: SIDE_MOVE_TIME as int, ..self };
            if input.left_down && self.dir == -1 {
                s.nudged(-1)
            } else if input.right_down && self.dir == 1 {
                s.nudged(1)
            } else {
                s
            }
        } else {
            self
        }
    }

    /// The soft drop, once its timer has run out: with the key down the
    /// piece goes down one row and gravity starts over, unless the piece is
    /// blocked there.
    pub open spec fn soft_dropped(self, input: Input) -> State {
        if self.elapsed1 >= DROP_TIME {
            let s = State { elapsed1: 0, ..self };
            let moved = self.block.shifted(0, 2);
            if input.soft_drop && !moved.collides(self.grid) {
                State { block: moved, elapsed: 0, ..s }
            } else {
                s
            }
        } else {
            self
        }
    }

    /// Gravity, once its timer has run out: the piece goes down one row,
    /// blocked or not.
    pub open spec fn fallen(self) -> State {
        if self.elapsed >= FALL_TIME {
            State { elapsed: 0, block: self.block.shifted(0, 2), ..self }
        } else {
            self
        }
    }

    /// The check that ends a tick. A piece that is not blocked stays in
    /// play. A blocked piece is raised to where it rests. If it then reaches
    /// above the top edge the game is over. Otherwise it is locked into the
    /// grid, the queue is refilled, the next piece enters play raised clear
    /// of the settled cells, and the score grows by one for the piece and by
    /// ten for each row that is now full; full rows start the clear
    /// animation.
    pub open spec fn locked(self) -> State {
        if !self.block.collides(self.grid) {
            self
        } else {
            let rest = self.block.lifted(self.grid);
            let s = State {
                elapsed: 0,
                elapsed1: 0,
                dir: 0,
                hold_block: false,
                block: rest,
                ..self
            };
            if rest.above_top() {
                State { game_over: true, ..s }
            } else {
                let grid = imprinted(self.grid, rest);
                let queue = refilled(self.queue);
                let rows = full_row_flags(grid);
                let n = flagged_in(rows, 0, TETRIS_H as int);
                let score = (self.score + 10 * n + 1) as nat;
                State {
                    grid,
                    queue,
                    block: Block::spawn(queue[0]).lifted(grid),
                    full_lines: rows,
                    line_clear: if n > 0 {
                        CLEAR_STEPS as nat
                    } else {
                        self.line_clear
                    },
                    score,
                    best_score: if score > self.best_score {
                        score
                    } else {
                        self.best_score
                    },
                    ..s
                }
            }
        }
    }

    /// One step of the clear animation, once its timer has run out: the
    /// next pair of columns, from the middle outwards, is emptied in every
    /// flagged row.
    pub open spec fn peel_stepped(self) -> State {
        if self.elapsed1 >= CLEAR_TIME {
            State {
                elapsed1: 0,
                line_clear: (self.line_clear - 1) as nat,
                grid: peeled(self.grid, self.full_lines, self.line_clear - 1),
                ..self
            }
        } else {
            self
        }
    }

    /// The flagged rows taken out of the grid, which ends a clear.
    pub open spec fn collapsed(self) -> State {
        State { grid: cleared(self.grid, self.full_lines), full_lines: no_rows(), ..self }
    }

    /// The game with its clocks moved on by one tick. The side-move clock
    /// runs while a direction is held, the gravity clock outside a clear.
    pub open spec fn clocked(self) -> State {
        State {
            elapsed: if self.line_clear == 0 {
                self.elapsed + DELAY
            } else {
                self.elapsed
            },
            elapsed1: self.elapsed1 + DELAY,
            elapsed2: if self.dir != 0 {
                self.elapsed2 - DELAY
            } else {
                self.elapsed2
            },
            ..self
        }
    }

    /// The keys that act when they go down, applied in a fixed order: hold,
    /// the side keys, rotate, hard drop.
    pub open spec fn keyed(self, input: Input) -> State {
        let a = if input.hold {
            self.held()
        } else {
            self
        };
        let b = a.steered(input);
        let c = if input.rotate {
            b.turned()
        } else {
            b
        };
        if input.hard_drop {
            c.hard_dropped()
        } else {
            c
        }
    }

    /// The state in which a tick of play reaches its lock check: after the
    /// keys, the repeat of a held side move, the soft drop and gravity.
    pub open spec fn moved(self, input: Input) -> State {
        self.keyed(input).repeated(input).soft_dropped(input).fallen()
    }

    /// The moves of a tick of play, then the lock check.
    pub open spec fn played(self, input: Input) -> State {
        self.moved(input).locked()
    }

    /// The two games have the same settled cells, flags and scores and are
    /// in the same phase.
    pub open spec fn same_board(self, other: State) -> bool {
        &&& self.grid == other.grid
        &&& self.full_lines == other.full_lines
        &&& self.line_clear == other.line_clear
        &&& self.game_over == other.game_over
        &&& self.score == other.score
        &&& self.best_score == other.best_score
    }

    /// The game one tick later. A game that is over waits for the restart
    /// key and then starts anew with its best score. A clear in progress
    /// takes no keys and makes a step of its animation. Otherwise the rows
    /// that a clear has emptied are taken out and the tick is one of play.
    pub open spec fn tick(self, input: Input, rolls: Rolls) -> State {
        if self.game_over {
            if input.restart {
                State::fresh(self.best_score, rolls.restart@)
            } else {
                self
            }
        } else if self.line_clear != 0 {
            self.clocked().peel_stepped()
        } else {
            self.clocked().collapsed().played(input)
        }
    }

    /// The landing preview: the piece in play where it would come to rest
    /// if it went straight down from where it is.
    pub open spec fn ghost(self) -> Block {
        self.block.dropped(self.grid).shifted(0, -2)
    }

    /// A new game with the given best score; the draws shuffle the queue.
    pub open spec fn fresh(best_score: nat, picks: Seq<usize>) -> State {
        let queue = shuffled(seq![0usize, 1, 2, 3, 4, 5, 6], picks);
        State {
            elapsed: 0,
            elapsed1: 0,
            elapsed2: 0,
            dir: 0,
            block: Block::spawn(queue[0]),
            grid: empty_grid(),
            queue,
            score: 0,
            best_score,
            game_over: false,
            line_clear: 0,
            full_lines: no_rows(),
            hold_block_type: 0,
            hold_block: false,
        }
    }
}

impl MainLoop {
    /// What holds of the game between two ticks.
    pub open spec fn wf(&self) -> bool {
        self@.wf()
    }

    /// The tick is one of play: the game is neither over nor in a clear.
    pub open spec fn in_play(&self) -> bool {
        !self.game_over && self.line_clear == 0
    }

    /// Starts a game on an empty grid. The queue is the seven types
    /// shuffled with the given draws, and its front is the piece in play.
    pub fn new(best_score: u128, picks: &[usize; QUEUE_LEN]) -> (game: Self)
        requires
            picks_fit(picks@, QUEUE_LEN as int),
        ensures
            game@ == State::fresh(best_score as nat, picks@),
            game.wf(),
    {
        proof {
            reveal(State::sane);
        }
        let mut order: [usize; QUEUE_LEN] = [0, 1, 2, 3, 4, 5, 6];
        let ghost start = order@;
        assert(start =~= seq![0usize, 1, 2, 3, 4, 5, 6]);
        shuffle(&mut order, picks);
        proof {
            lemma_shuffled_keeps_distinct(start, picks@);
            assert forall|i: int| 0 <= i < QUEUE_LEN implies order@[i] < 7 by {
                assert(start.contains(order@[i]));
            }
            lemma_spawn_is_inside(order@[0], empty_grid());
        }
        let game = Self {
            elapsed: 0,
            elapsed1: 0,
            elapsed2: 0,
            dir: 0,
            block: Block::new(order[0]),
            grid: [0; GRID_CELLS],
            blocks_order: order,
            score: 0,
            best_score,
            game_over: false,
            line_clear: 0,
            full_lines: [false; TETRIS_H],
            hold_block_type: 0,
            hold_block: false,
        };
        assert(game.grid@ =~= empty_grid());
        assert(game.full_lines@ =~= no_rows());
        game
    }

    /// Where the piece in play would come to rest if it went straight down:
    /// one row above the first place where it is blocked. The game is only
    /// read.
    pub fn ghost_position(&self) -> (pos: [i32; 2])
        requires
            self@.sane(),
        ensures
            pos == self@.ghost().pos,
            pos[0] == self.block.pos[0],
            !self.block.collides(self.grid@) ==> pos[1] >= self.block.pos[1] && !self@.ghost().collides(
                self.grid@,
            ) && self@.ghost().shifted(0, 2).collides(self.grid@),
    {
        proof {
            reveal(State::sane);
            assert(self.block.pos =~= self.block.at_row(self.block.pos[1] as int).pos);
            if !self.block.collides(self.grid@) {
                lemma_drop_row_rests(self.block, self.grid@, self.block.pos[1] as int);
            }
        }
        let mut b = self.block;
        b.drop_down(&self.grid);
        let ghost low = b;
        b.pos[1] -= 2;
        assert(b.pos =~= low.shifted(0, -2).pos);
        assert(b.pos =~= self.block.at_row(low.pos[1] - 2).pos);
        assert(b.shifted(0, 2).pos =~= low.pos);
        b.pos
    }

    fn nudge(&mut self, dx: i32)
        requires
            old(self)@.sane(),
            dx == 1 || dx == -1,
        ensures
            final(self)@ == old(self)@.nudged(dx as int),
            final(self).score == old(self).score,
            final(self).line_clear == old(self).line_clear,
            final(self)@.sane(),
            final(self).block.pos[1] == old(self).block.pos[1],
    {
        proof {
            reveal(State::sane);
        }
        proof {
            lemma_walls_bound_pivot(self.block);
        }
        let before = self.block;
        self.block.pos[0] += 2 * dx;
        assert(self.block.pos =~= before.shifted(2 * dx, 0).pos);
        if self.block.block_collision(&self.grid) {
            self.block = before;
        } else {
            proof {
                lemma_free_is_inside(self.block, self.grid@);
            }
        }
    }

    fn hold(&mut self)
        requires
            old(self)@.sane(),
            old(self).block.pos[1] <= 49,
        ensures
            final(self)@ == old(self)@.held(),
            final(self).score == old(self).score,
            final(self).line_clear == old(self).line_clear,
            final(self)@.sane(),
            final(self).block.pos[1] <= 49,
    {
        proof {
            reveal(State::sane);
        }
        if self.hold_block {
            return ;
        }
        let banked = self.hold_block_type;
        self.hold_block = true;
        self.hold_block_type = self.block.block_type + 1;
        if banked == 0 {
            proof {
                lemma_advanced_is_bag(self.blocks_order@);
            }
            advance(&mut self.blocks_order);
            self.block = Block::new(self.blocks_order[0]);
            proof {
                lemma_spawn_is_inside(self.blocks_order@[0], self.grid@);
            }
            self.block.lift(&self.grid);
        } else {
            proof {
                lemma_spawn_is_inside((banked - 1) as usize, self.grid@);
            }
            self.block = Block::new(banked - 1);
            self.blocks_order[0] = banked - 1;
        }
    }

    fn steer(&mut self, input: &Input)
        requires
            old(self)@.sane(),
            old(self).line_clear == 0,
        ensures
            final(self)@ == old(self)@.steered(*input),
            final(self).score == old(self).score,
            final(self)@.sane(),
            final(self).block.pos[1] == old(self).block.pos[1],
            final(self).line_clear == 0,
    {
        proof {
            reveal(State::sane);
        }
        if input.left_pressed {
            self.nudge(-1);
            self.dir = -1;
            self.elapsed2 = SIDE_MOVE_DELAY;
        }
        if input.right_pressed {
            self.nudge(1);
            self.dir = 1;
            self.elapsed2 = SIDE_MOVE_DELAY;
        }
        if (input.left_released && self.dir == -1) || (input.right_released && self.dir == 1) {
            self.dir = 0;
        }
    }

    fn rotate(&mut self)
        requires
            old(self)@.sane(),
        ensures
            final(self)@ == old(self)@.turned(),
            final(self).score == old(self).score,
            final(self).line_clear == old(self).line_clear,
            final(self)@.sane(),
            final(self).block.pos[1] <= old(self).block.pos[1],
    {
        proof {
            reveal(State::sane);
        }
        self.block.turn(&self.grid);
    }

    fn hard_drop(&mut self)
        requires
            old(self)@.sane(),
            old(self).block.pos[1] <= 49,
        ensures
            final(self)@ == old(self)@.hard_dropped(),
            final(self).score == old(self).score,
            final(self).line_clear == old(self).line_clear,
            final(self)@.sane(),
            final(self).block.pos[1] <= 51,
    {
        proof {
            reveal(State::sane);
        }
        self.block.drop_down(&self.grid);
    }

    fn repeat_side(&mut self, input: &Input)
        requires
            old(self)@.sane(),
        ensures
            final(self)@ == old(self)@.repeated(*input),
            final(self).score == old(self).score,
            final(self).line_clear == old(self).line_clear,
            final(self)@.sane(),
            final(self).block.pos[1] == old(self).block.pos[1],
            final(self).elapsed2 > 0,
    {
        proof {
            reveal(State::sane);
        }
        if self.elapsed2 <= 0 {
            self.elapsed2 = SIDE_MOVE_TIME;
            if input.left_down && self.dir == -1 {
                self.nudge(-1);
            } else if input.right_down && self.dir == 1 {
                self.nudge(1);
            }
        }
    }

    fn soft_drop(&mut self, input: &Input)
        requires
            old(self)@.sane(),
            old(self).block.pos[1] <= 51,
        ensures
            final(self)@ == old(self)@.soft_dropped(*input),
            final(self).score == old(self).score,
            final(self).line_clear == old(self).line_clear,
            final(self)@.sane(),
            final(self).block.pos[1] <= 51,
            final(self).elapsed1 < DROP_TIME,
            final(self).elapsed2 == old(self).elapsed2,
    {
        proof {
            reveal(State::sane);
        }
        if self.elapsed1 >= DROP_TIME {
            self.elapsed1 = 0;
            if input.soft_drop {
                let temp = self.elapsed;
                self.elapsed = 0;
                self.block.pos[1] += 2;
                assert(self.block.pos =~= old(self).block.shifted(0, 2).pos);
                if self.block.block_collision(&self.grid) {
                    self.block.pos[1] -= 2;
                    assert(self.block.pos =~= old(self).block.pos);
                    self.elapsed = temp;
                } else {
                    proof {
                        lemma_free_is_inside(self.block, self.grid@);
                    }
                }
            }
        }
    }

    fn fall(&mut self)
        requires
            old(self)@.sane(),
            old(self).block.pos[1] <= 51,
        ensures
            final(self)@ == old(self)@.fallen(),
            final(self).score == old(self).score,
            final(self).line_clear == old(self).line_clear,
            final(self)@.sane(),
            final(self).elapsed < FALL_TIME,
            final(self).elapsed1 == old(self).elapsed1,
            final(self).elapsed2 == old(self).elapsed2,
    {
        proof {
            reveal(State::sane);
        }
        if self.elapsed >= FALL_TIME {
            self.elapsed = 0;
            self.block.pos[1] += 2;
            assert(self.block.pos =~= old(self).block.shifted(0, 2).pos);
        }
    }

    fn lock(&mut self)
        requires
            old(self)@.sane(),
            old(self).line_clear == 0,
            old(self).score + TICK_SCORE <= u128::MAX,
        ensures
            final(self)@ == old(self)@.locked(),
            final(self).score <= old(self).score + TICK_SCORE,
            final(self)@.sane(),
            !final(self).block.collides(final(self).grid@),
            final(self).block.pos[1] <= 49,
            final(self).elapsed <= old(self).elapsed,
            final(self).elapsed1 <= old(self).elapsed1,
            final(self).elapsed2 == old(self).elapsed2,
    {
        proof {
            reveal(State::sane);
        }
        if !self.block.block_collision(&self.grid) {
            proof {
                lemma_free_is_inside(self.block, self.grid@);
            }
            return ;
        }
        self.elapsed = 0;
        self.elapsed1 = 0;
        self.dir = 0;
        self.hold_block = false;
        self.block.lift(&self.grid);
        proof {
            lemma_free_is_inside(self.block, self.grid@);
        }
        if self.block.reached_height() {
            self.game_over = true;
            return ;
        }
        proof {
            lemma_imprinted_within(self.grid@, self.block, 7);
            lemma_refill_is_bag(self.blocks_order@);
        }
        set_grid(&mut self.grid, &self.block);
        restore_front(&mut self.blocks_order);
        advance(&mut self.blocks_order);
        self.block = Block::new(self.blocks_order[0]);
        proof {
            lemma_spawn_is_inside(self.blocks_order@[0], self.grid@);
        }
        self.block.lift(&self.grid);
        proof {
            lemma_free_is_inside(self.block, self.grid@);
        }
        self.full_lines = full_rows(&self.grid);
        let n = count_rows(&self.full_lines);
        if n > 0 {
            self.line_clear = CLEAR_STEPS;
        }
        self.score += 10 * (n as u128) + 1;
        if self.score > self.best_score {
            self.best_score = self.score;
        }
    }

    fn clock(&mut self)
        requires
            old(self)@.ready(),
        ensures
            final(self)@ == old(self)@.clocked(),
            final(self)@.sane(),
            final(self).block == old(self).block,
            final(self).grid == old(self).grid,
            final(self).block.pos[1] <= 49,
            final(self).elapsed1 < CLEAR_TIME + DELAY,
            final(self).line_clear != 0 ==> final(self).elapsed < FALL_TIME && final(self).elapsed2
                >= 0,
    {
        proof {
            reveal(State::sane);
        }
        self.elapsed1 += DELAY;
        if self.dir != 0 {
            self.elapsed2 -= DELAY;
        }
        if self.line_clear == 0 {
            self.elapsed += DELAY;
        }
    }

    fn peel_step(&mut self)
        requires
            old(self)@.sane(),
            old(self).line_clear != 0,
            old(self).block.pos[1] <= 49,
            old(self).elapsed < FALL_TIME,
            old(self).elapsed1 < CLEAR_TIME + DELAY,
            old(self).elapsed2 >= 0,
        ensures
            final(self)@ == old(self)@.peel_stepped(),
            final(self)@.ready(),
            !old(self).block.collides(old(self).grid@) ==> final(self).wf(),
            final(self).score == old(self).score,
    {
        proof {
            reveal(State::sane);
        }
        if self.elapsed1 >= CLEAR_TIME {
            self.elapsed1 = 0;
            self.line_clear -= 1;
            proof {
                lemma_peeled_within(self.grid@, self.full_lines@, self.line_clear as int, 7);
            }
            peel_columns(&mut self.grid, &self.full_lines, self.line_clear);
        }
    }

    fn collapse(&mut self)
        requires
            old(self)@.sane(),
            old(self).line_clear == 0,
        ensures
            final(self)@ == old(self)@.collapsed(),
            final(self)@.sane(),
            final(self).line_clear == 0,
            final(self).block == old(self).block,
            final(self).score == old(self).score,
    {
        proof {
            reveal(State::sane);
            lemma_cleared_within(self.grid@, self.full_lines@, TETRIS_H as int, 7);
        }
        clear_rows(&mut self.grid, &self.full_lines);
        self.full_lines = [false; TETRIS_H];
        assert(self.full_lines@ =~= no_rows());
    }

    fn apply_keys(&mut self, input: &Input)
        requires
            old(self)@.sane(),
            old(self).line_clear == 0,
            old(self).block.pos[1] <= 49,
        ensures
            final(self)@ == old(self)@.keyed(*input),
            final(self)@.sane(),
            final(self).line_clear == 0,
            final(self).block.pos[1] <= 51,
            final(self).score == old(self).score,
    {
        if input.hold {
            self.hold();
        }
        self.steer(input);
        if input.rotate {
            self.rotate();
        }
        if input.hard_drop {
            self.hard_drop();
        }
    }

    fn apply_clocks(&mut self, input: &Input)
        requires
            old(self)@.sane(),
            old(self).line_clear == 0,
            old(self).block.pos[1] <= 51,
        ensures
            final(self)@ == old(self)@.repeated(*input).soft_dropped(*input).fallen(),
            final(self)@.sane(),
            final(self).line_clear == 0,
            final(self).score == old(self).score,
            final(self).elapsed < FALL_TIME,
            final(self).elapsed1 < DROP_TIME,
            final(self).elapsed2 > 0,
    {
        self.repeat_side(input);
        self.soft_drop(input);
        self.fall();
    }

    fn play(&mut self, input: &Input)
        requires
            old(self)@.sane(),
            old(self).line_clear == 0,
            old(self).block.pos[1] <= 49,
            old(self).score + TICK_SCORE <= u128::MAX,
        ensures
            final(self)@ == old(self)@.played(*input),
            final(self).wf(),
            final(self).score <= old(self).score + TICK_SCORE,
    {
        self.apply_keys(input);
        self.apply_clocks(input);
        self.lock();
    }

    /// Advances the game by one tick with the keys as sampled and the draws
    /// made for it. The piece in play may lie on settled cells when the tick
    /// starts; after a tick of play it never does.
    pub fn update(&mut self, input: &Input, rolls: &Rolls)
        requires
            old(self)@.ready(),
            old(self)@.has_room(),
            rolls.fit(),
        ensures
            final(self)@ == old(self)@.tick(*input, *rolls),
            final(self)@.ready(),
            old(self).wf() || old(self).in_play() || (old(self).game_over && input.restart)
                ==> final(self).wf(),
            final(self).score <= old(self).score + TICK_SCORE,
            !old(self).in_play() ==> final(self).score <= old(self).score,
    {
        if self.game_over {
            if input.restart {
                *self = Self::new(self.best_score, &rolls.restart);
            }
            return ;
        }
        self.clock();
        if self.line_clear != 0 {
            self.peel_step();
            return ;
        }
        self.collapse();
        self.play(input);
    }
}

/// A hold marks itself as used, so a second hold with no lock in between
/// changes nothing.
pub proof fn lemma_hold_twice(s: State)
    ensures
        s.held().hold_block,
        s.held().held() == s.held(),
{
}

/// A tick in which the hold key goes down while the hold is used leaves
/// the banked type as it is, and it takes the piece and the queue through
/// the same moves as a tick without the key.
pub proof fn lemma_used_hold_is_ignored(s: State, input: Input, rolls: Rolls)
    requires
        s.hold_block,
    ensures
        s.tick(input, rolls) == s.tick(Input { hold: false, ..input }, rolls),
{
}

/// A restart gives an empty grid and a score of 0 and keeps the best score.
pub proof fn lemma_restart_resets(s: State, input: Input, rolls: Rolls)
    requires
        s.game_over,
        input.restart,
    ensures
        s.tick(input, rolls).score == 0,
        s.tick(input, rolls).grid == empty_grid(),
        s.tick(input, rolls).best_score == s.best_score,
        !s.tick(input, rolls).game_over,
        s.tick(input, rolls).line_clear == 0,
        s.tick(input, rolls).full_lines == no_rows(),
        s.tick(input, rolls).hold_block_type == 0,
        !s.tick(input, rolls).hold_block,
{
}

proof fn lemma_held_keeps_board(s: State)
    ensures
        s.held().same_board(s),
{
}

proof fn lemma_steered_keeps_board(s: State, input: Input)
    ensures
        s.steered(input).same_board(s),
        s.steered(input).queue == s.queue,
{
}

proof fn lemma_turned_keeps_board(s: State)
    ensures
        s.turned().same_board(s),
        s.turned().queue == s.queue,
        s.hard_dropped().same_board(s),
        s.hard_dropped().queue == s.queue,
{
}

proof fn lemma_clocks_keep_board(s: State, input: Input)
    ensures
        s.repeated(input).same_board(s),
        s.repeated(input).queue == s.queue,
        s.soft_dropped(input).same_board(s),
        s.soft_dropped(input).queue == s.queue,
        s.fallen().same_board(s),
        s.fallen().queue == s.queue,
{
}

/// The moves of a tick before its lock check leave the grid, the flags and
/// the scores alone, and the queue too unless the hold key went down.
proof fn lemma_moves_keep_scores(s: State, input: Input)
    ensures
        s.moved(input).same_board(s),
        !input.hold ==> s.moved(input).queue == s.queue,
{
    let a = if input.hold {
        s.held()
    } else {
        s
    };
    lemma_held_keeps_board(s);
    let b = a.steered(input);
    lemma_steered_keeps_board(a, input);
    let c = if input.rotate {
        b.turned()
    } else {
        b
    };
    lemma_turned_keeps_board(b);
    let d = if input.hard_drop {
        c.hard_dropped()
    } else {
        c
    };
    lemma_turned_keeps_board(c);
    assert(d == s.keyed(input));
    let e1 = d.repeated(input);
    lemma_clocks_keep_board(d, input);
    let e2 = e1.soft_dropped(input);
    lemma_clocks_keep_board(e1, input);
    lemma_clocks_keep_board(e2, input);
}

/// A lock check either leaves grid, flags, queue and score as they are, or
/// locks the piece: the score then grows, the queue is refilled once and
/// its new front is the type of the piece that enters play.
proof fn lemma_locked_cases(s: State)
    ensures
        ({
            let t = s.locked();
            ||| t.grid == s.grid && t.queue == s.queue && t.score == s.score && t.full_lines
                == s.full_lines && t.line_clear == s.line_clear
            ||| s.score < t.score <= s.score + TICK_SCORE && t.queue == refilled(s.queue)
                && t.block.block_type == refilled(s.queue)[0]
        }),
        s.locked().best_score >= s.best_score,
        s.score <= s.best_score ==> s.locked().score <= s.locked().best_score,
{
    let rest = s.block.lifted(s.grid);
    let rows = full_row_flags(imprinted(s.grid, rest));
    lemma_flagged_bounds(rows, 0, TETRIS_H as int);
}

/// A tick of play adds to the score at most one piece and every row.
proof fn lemma_played_score(s: State, input: Input)
    ensures
        s.score <= s.played(input).score <= s.score + TICK_SCORE,
{
    lemma_moves_keep_scores(s, input);
    lemma_locked_cases(s.moved(input));
}

/// Without the hold key, a tick leaves the queue and the score as they
/// are, or a piece locks in it: the score then grows, the queue is
/// refilled once, and the type that waited at its front enters play. So
/// the pieces of a game come up in the order of the queue's refills.
pub proof fn lemma_tick_turns_queue(s: State, input: Input, rolls: Rolls)
    requires
        !s.game_over,
        !input.hold,
    ensures
        ({
            let t = s.tick(input, rolls);
            ||| t.queue == s.queue && t.score == s.score
            ||| t.queue == refilled(s.queue) && t.score > s.score && t.block.block_type
                == refilled(s.queue)[0]
        }),
{
    if s.line_clear == 0 {
        let p = s.clocked().collapsed();
        lemma_moves_keep_scores(p, input);
        lemma_locked_cases(p.moved(input));
    }
}

/// A tick of a clear keeps the grid in step with the animation: where the
/// grid is the grid `before` the clear with the middle columns of the
/// flagged rows emptied, as far as the steps made so far reach, it is so
/// again after the tick. Nothing else happens to grid, flags or score.
pub proof fn lemma_clear_tick(s: State, input: Input, rolls: Rolls, before: Seq<usize>)
    requires
        !s.game_over,
        0 < s.line_clear <= CLEAR_STEPS,
        s.grid == peeled_from(before, s.full_lines, s.line_clear as int),
    ensures
        s.tick(input, rolls).grid == peeled_from(
            before,
            s.full_lines,
            s.tick(input, rolls).line_clear as int,
        ),
        s.tick(input, rolls).line_clear == s.line_clear || s.tick(input, rolls).line_clear
            == s.line_clear - 1,
        s.tick(input, rolls).full_lines == s.full_lines,
        s.tick(input, rolls).score == s.score,
        !s.tick(input, rolls).game_over,
{
    lemma_peel_goes_on(before, s.full_lines, s.line_clear - 1);
}

/// The tick after the last step of a clear takes the flagged rows out.
/// Where those rows were full in the grid `before` the clear, and no piece
/// locks in this tick, the grid then holds one row's width of settled
/// cells fewer for each of them.
pub proof fn lemma_clear_ends(s: State, input: Input, rolls: Rolls, before: Seq<usize>)
    requires
        !s.game_over,
        s.line_clear == 0,
        before.len() == GRID_CELLS,
        s.full_lines.len() == TETRIS_H,
        s.grid == peeled_from(before, s.full_lines, 0),
        forall|y: int| 0 <= y < TETRIS_H && s.full_lines[y] ==> row_full(before, y),
    ensures
        s.clocked().collapsed().grid == cleared(before, s.full_lines),
        s.tick(input, rolls).score == s.score ==> s.tick(input, rolls).grid == cleared(
            before,
            s.full_lines,
        ),
        settled(cleared(before, s.full_lines)) == settled(before) - 10 * flagged_in(
            s.full_lines,
            0,
            TETRIS_H as int,
        ),
{
    lemma_clear_after_peeling(before, s.full_lines);
    let p = s.clocked().collapsed();
    lemma_moves_keep_scores(p, input);
    lemma_locked_cases(p.moved(input));
}

/// A lock starts a clear before any of its steps: the grid is then the
/// grid before the clear with nothing emptied.
pub proof fn lemma_clear_starts(grid: Seq<usize>, rows: Seq<bool>)
    ensures
        peeled_from(grid, rows, CLEAR_STEPS as int) == grid,
{
    lemma_peel_goes_on(grid, rows, 0);
}

/// The best score never falls and is never below the score, and the score
/// falls only at a restart.
pub proof fn lemma_best_score_grows(s: State, input: Input, rolls: Rolls)
    requires
        s.score <= s.best_score,
    ensures
        s.tick(input, rolls).best_score >= s.best_score,
        s.tick(input, rolls).score <= s.tick(input, rolls).best_score,
        s.tick(input, rolls).score >= s.score || (s.game_over && input.restart),
{
    if !s.game_over && s.line_clear == 0 {
        let p = s.clocked().collapsed();
        lemma_moves_keep_scores(p, input);
        lemma_played_score(p, input);
    }
}

} // verus!
