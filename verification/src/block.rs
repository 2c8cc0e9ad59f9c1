//! Piece geometry: the shape tables, the quarter-turn transform and the
//! active piece with its collision tests.
//!
//! All coordinates are kept in half cells, so that the pivots of the `I` and
//! `O` pieces, which sit between cells, are whole numbers. A whole cell is 2.

use vstd::prelude::*;

verus! {

/// Width of the playfield in cells.
pub const TETRIS_W: usize = 10;

/// Height of the playfield in cells.
pub const TETRIS_H: usize = 24;

/// The four cell offsets of each piece type relative to its pivot, in half
/// cells. Rows are `I`, `J`, `L`, `O`, `S`, `T`, `Z`.
pub const BLOCK_OFFSETS: [[[i32; 2]; 4]; 7] = [
    [[-3, -1], [-1, -1], [1, -1], [3, -1]],
    [[-2, 0], [0, 0], [2, 0], [2, -2]],
    [[-2, -2], [-2, 0], [0, 0], [2, 0]],
    [[-1, -1], [1, -1], [-1, 1], [1, 1]],
    [[-2, 0], [0, 0], [0, -2], [2, -2]],
    [[-2, 0], [0, 0], [0, -2], [2, 0]],
    [[-2, -2], [0, -2], [0, 0], [2, 0]],
];

/// Spawn positions in half cells: the first for pieces whose pivot is a cell
/// centre, the second for the `I` and `O` pieces.
pub const DEFAULT_POS: [[i32; 2]; 2] = [[8, 2], [9, 1]];

/// Colour of each piece type as red, green, blue.
pub const BLOCK_COLS: [[u8; 3]; 7] = [
    [0, 255, 255],
    [0, 0, 255],
    [255, 127, 0],
    [255, 255, 0],
    [0, 255, 0],
    [255, 0, 255],
    [255, 0, 0],
];

/// Rotation of a vector by quarter turns.
pub trait Rotate90: Sized {
    /// Whether each component can be negated without leaving its type.
    spec fn rotatable(&self) -> bool;

    /// The vector turned by `rot` quarter turns. Steps other than 1, 2 and 3
    /// leave it as it is.
    spec fn rotated(&self, rot: i8) -> Self;

    fn rotate90(&self, rot: i8) -> (r: Self)
        requires
            self.rotatable(),
        ensures
            r == self.rotated(rot),
    ;
}

impl Rotate90 for [i32; 2] {
    open spec fn rotatable(&self) -> bool {
        self[0] > i32::MIN && self[1] > i32::MIN
    }

    open spec fn rotated(&self, rot: i8) -> Self {
        if rot == 1 {
            [(-self[1]) as i32, self[0]]
        } else if rot == 2 {
            [(-self[0]) as i32, (-self[1]) as i32]
        } else if rot == 3 {
            [self[1], (-self[0]) as i32]
        } else {
            *self
        }
    }

    fn rotate90(&self, rot: i8) -> (r: Self) {
        match rot {
            1 => [-self[1], self[0]],
            2 => [-self[0], -self[1]],
            3 => [self[1], -self[0]],
            _ => *self,
        }
    }
}

/// Four equal turns of any size bring a vector back to itself.
pub proof fn lemma_rotate90_four_times(v: [i32; 2], rot: i8)
    requires
        v.rotatable(),
    ensures
        v.rotated(rot).rotatable(),
        v.rotated(rot).rotated(rot).rotatable(),
        v.rotated(rot).rotated(rot).rotated(rot).rotatable(),
        v.rotated(rot).rotated(rot).rotated(rot).rotated(rot) == v,
{
    let a = v.rotated(rot);
    let b = a.rotated(rot);
    let c = b.rotated(rot);
    let d = c.rotated(rot);
    assert(d =~= v);
}

/// The nearest whole cell to `h` half cells; a value midway between two
/// cells goes to the one farther from zero.
pub open spec fn round_half(h: int) -> int {
    if h >= 0 {
        (h + 1) / 2
    } else {
        -((1 - h) / 2)
    }
}

fn round_half_exec(h: i64) -> (r: i64)
    requires
        -0x1_0000_0000 <= h <= 0x1_0000_0000,
    ensures
        r == round_half(h as int),
{
    if h >= 0 {
        (h + 1) / 2
    } else {
        -((1 - h) / 2)
    }
}

/// Every table entry lies within a cell and a half of the pivot.
pub proof fn lemma_offsets_bounded(t: int, i: int)
    requires
        0 <= t < 7,
        0 <= i < 4,
    ensures
        -3 <= BLOCK_OFFSETS[t][i][0] <= 3,
        -3 <= BLOCK_OFFSETS[t][i][1] <= 3,
{
}

/// The active piece: where its pivot is, how it is turned and which shape
/// it has.
#[derive(Clone, Copy, Debug)]
pub struct Block {
    /// Column and row of the pivot, in half cells.
    pub pos: [i32; 2],
    /// Quarter turns applied to the shape: 0 to 3.
    pub rot: i8,
    /// Index of the shape in [`BLOCK_OFFSETS`].
    pub block_type: usize,
}

impl Block {
    /// Offset of cell `i` from the pivot after turning, in half cells.
    pub open spec fn offset(&self, i: int) -> [i32; 2] {
        BLOCK_OFFSETS[self.block_type as int][i].rotated(self.rot)
    }

    /// Playfield column of cell `i`.
    pub open spec fn col(&self, i: int) -> int {
        round_half(self.pos[0] + self.offset(i)[0])
    }

    /// Playfield row of cell `i`; negative above the top edge.
    pub open spec fn row(&self, i: int) -> int {
        round_half(self.pos[1] + self.offset(i)[1])
    }

    /// Row-major index of cell `i`. It is negative above the top edge and
    /// may fall inside the grid for a column outside the playfield.
    pub open spec fn index(&self, i: int) -> int {
        self.col(i) + self.row(i) * TETRIS_W
    }

    /// Cell `i` lies beyond a side wall or below the floor.
    pub open spec fn cell_outside(&self, i: int) -> bool {
        self.col(i) < 0 || self.col(i) >= TETRIS_W || self.row(i) >= TETRIS_H
    }

    /// Cell `i` is blocked: outside the playfield, or on a settled cell.
    pub open spec fn cell_hits(&self, grid: Seq<usize>, i: int) -> bool {
        self.cell_outside(i) || (0 <= self.index(i) < grid.len() && grid[self.index(i)] != 0)
    }

    /// Some cell of the piece is blocked.
    pub open spec fn collides(&self, grid: Seq<usize>) -> bool {
        self.cell_hits(grid, 0) || self.cell_hits(grid, 1) || self.cell_hits(grid, 2)
            || self.cell_hits(grid, 3)
    }

    /// Some cell of the piece lies above the top edge.
    pub open spec fn above_top(&self) -> bool {
        self.row(0) < 0 || self.row(1) < 0 || self.row(2) < 0 || self.row(3) < 0
    }

    /// Every cell lies between the side walls.
    pub open spec fn within_walls(&self) -> bool {
        &&& 0 <= self.col(0) < TETRIS_W
        &&& 0 <= self.col(1) < TETRIS_W
        &&& 0 <= self.col(2) < TETRIS_W
        &&& 0 <= self.col(3) < TETRIS_W
    }

    /// The pose in which a piece of the given type enters play.
    pub open spec fn spawn(block_type: usize) -> Block {
        Block {
            pos: if block_type == 0 || block_type == 3 {
                DEFAULT_POS[1]
            } else {
                DEFAULT_POS[0]
            },
            rot: 0,
            block_type,
        }
    }

    /// The same piece moved by whole half-cell steps.
    pub open spec fn shifted(&self, dx: int, dy: int) -> Block {
        Block { pos: [(self.pos[0] + dx) as i32, (self.pos[1] + dy) as i32], ..*self }
    }

    /// The same piece turned to `rot`.
    pub open spec fn turned(&self, rot: i8) -> Block {
        Block { rot, ..*self }
    }

    /// The piece after a quarter turn with its kicks. The square piece does
    /// not turn. Any other piece turns; if it is blocked there, it moves
    /// one column to the side that is free. With both sides free it moves
    /// one column right, and from there one row up if that place is free.
    /// With both sides blocked the turn is undone and the piece stays where
    /// it was.
    pub open spec fn kicked(&self, grid: Seq<usize>) -> Block {
        let r = self.turned(((self.rot + 1) % 4) as i8);
        let left = r.shifted(-2, 0);
        let right = r.shifted(2, 0);
        let up = right.shifted(0, -2);
        if self.block_type == 3 {
            *self
        } else if !r.collides(grid) {
            r
        } else if left.collides(grid) && !right.collides(grid) {
            right
        } else if !left.collides(grid) && right.collides(grid) {
            left
        } else if !left.collides(grid) && !right.collides(grid) {
            if up.collides(grid) {
                right
            } else {
                up
            }
        } else {
            *self
        }
    }

    /// The same piece with its pivot in row `y`, in half cells.
    pub open spec fn at_row(&self, y: int) -> Block {
        Block { pos: [self.pos[0], y as i32], ..*self }
    }

    /// The pivot row at which the piece, raised a row at a time from pivot
    /// row `y`, is no longer blocked. A piece between the walls is free at
    /// the latest when all of it is above the top edge.
    pub open spec fn lift_row(&self, grid: Seq<usize>, y: int) -> int
        decreases y + 5,
    {
        if self.at_row(y).collides(grid) && y >= -3 {
            self.lift_row(grid, y - 2)
        } else {
            y
        }
    }

    /// The piece raised a row at a time until it is no longer blocked.
    pub open spec fn lifted(&self, grid: Seq<usize>) -> Block {
        self.at_row(self.lift_row(grid, self.pos[1] as int))
    }

    /// The pivot row at which the piece, lowered a row at a time from pivot
    /// row `y`, is blocked: one row past the place where it comes to rest.
    pub open spec fn drop_row(&self, grid: Seq<usize>, y: int) -> int
        decreases 51 - y,
    {
        if !self.at_row(y).collides(grid) && y <= 49 {
            self.drop_row(grid, y + 2)
        } else {
            y
        }
    }

    /// The piece lowered a row at a time until it is blocked.
    pub open spec fn dropped(&self, grid: Seq<usize>) -> Block {
        self.at_row(self.drop_row(grid, self.pos[1] as int))
    }

    pub fn new(block_type: usize) -> (b: Self)
        ensures
            b == Block::spawn(block_type),
    {
        Self {
            pos: DEFAULT_POS[if block_type == 0 || block_type == 3 {
                1
            } else {
                0
            }],
            rot: 0,
            block_type,
        }
    }

    /// Column and row of cell `i`.
    pub fn cell(&self, i: usize) -> (c: (i64, i64))
        requires
            self.block_type < 7,
            i < 4,
        ensures
            c.0 == self.col(i as int),
            c.1 == self.row(i as int),
    {
        proof {
            lemma_offsets_bounded(self.block_type as int, i as int);
        }
        let offset = BLOCK_OFFSETS[self.block_type][i].rotate90(self.rot);
        let x: i64 = self.pos[0] as i64 + offset[0] as i64;
        let y: i64 = self.pos[1] as i64 + offset[1] as i64;
        (round_half_exec(x), round_half_exec(y))
    }

    /// Whether the piece is blocked by a wall, the floor or a settled cell.
    /// Cells above the top edge are blocked by the side walls only.
    pub fn block_collision(&self, grid: &[usize]) -> (hit: bool)
        requires
            self.block_type < 7,
        ensures
            hit == self.collides(grid@),
    {
        let mut i: usize = 0;
        while i < 4
            invariant
                i <= 4,
                self.block_type < 7,
                forall|k: int| 0 <= k < i ==> !self.cell_hits(grid@, k),
            decreases 4 - i,
        {
            let (col, row) = self.cell(i);
            if col < 0 || col >= TETRIS_W as i64 || row >= TETRIS_H as i64 {
                return true;
            }
            let idx: i64 = col + row * TETRIS_W as i64;
            if idx >= 0 && (idx as u64) < grid.len() as u64 && grid[idx as usize] != 0 {
                return true;
            }
            i += 1;
        }
        false
    }

    /// Raises the piece a row at a time until it is no longer blocked. The
    /// piece must lie between the walls: one that reaches into a wall is
    /// blocked at every height.
    pub fn lift(&mut self, grid: &[usize])
        requires
            old(self).block_type < 7,
            old(self).within_walls(),
        ensures
            *final(self) == old(self).lifted(grid@),
            !final(self).collides(grid@),
            final(self).pos[1] <= old(self).pos[1],
            final(self).pos[1] == old(self).pos[1] || final(self).pos[1] >= -5,
    {
        let ghost start = *self;
        assert(self.pos =~= start.at_row(self.pos[1] as int).pos);
        while self.block_collision(grid)
            invariant
                self.block_type < 7,
                self.within_walls(),
                *self == start.at_row(self.pos[1] as int),
                self.pos[1] <= start.pos[1],
                self.pos[1] == start.pos[1] || self.pos[1] >= -5,
                start.lift_row(grid@, self.pos[1] as int) == start.lift_row(
                    grid@,
                    start.pos[1] as int,
                ),
            decreases self.pos[1] + 5,
        {
            proof {
                lemma_blocked_is_low(*self, grid@);
            }
            self.pos[1] -= 2;
            assert(self.pos =~= start.at_row(self.pos[1] as int).pos);
        }
    }

    /// Turns the piece by a quarter turn, with a kick to the side or a
    /// return to the old pose where the turned piece is blocked.
    #[verifier::rlimit(60)]
    pub fn turn(&mut self, grid: &[usize])
        requires
            old(self).block_type < 7,
            0 <= old(self).rot <= 3,
            old(self).within_walls(),
        ensures
            *final(self) == old(self).kicked(grid@),
            final(self).block_type == old(self).block_type,
            0 <= final(self).rot <= 3,
            final(self).within_walls(),
            final(self).pos[1] <= old(self).pos[1],
            final(self).pos[1] == old(self).pos[1] || final(self).pos[1] >= -5,
    {
        if self.block_type == 3 {
            return ;
        }
        proof {
            lemma_walls_bound_pivot(*self);
        }
        let before = *self;
        self.rot += 1;
        if self.rot > 3 {
            self.rot = 0;
        }
        let ghost r = *self;
        let ghost left = r.shifted(-2, 0);
        let ghost right = r.shifted(2, 0);
        assert(r == before.turned(((before.rot + 1) % 4) as i8));
        if !self.block_collision(grid) {
            proof {
                lemma_free_is_inside(r, grid@);
            }
            return ;
        }
        self.pos[0] -= 2;
        assert(self.pos =~= left.pos);
        let left_col = self.block_collision(grid);
        self.pos[0] += 4;
        assert(self.pos =~= right.pos);
        let right_col = self.block_collision(grid);
        if left_col && !right_col {
            proof {
                lemma_free_is_inside(right, grid@);
            }
        } else if !left_col && right_col {
            self.pos[0] -= 4;
            assert(self.pos =~= left.pos);
            proof {
                lemma_free_is_inside(left, grid@);
            }
        } else if !left_col && !right_col {
            proof {
                lemma_free_is_inside(right, grid@);
                lemma_between_is_inside(r, grid@);
                lemma_blocked_is_low(r, grid@);
            }
            self.pos[1] -= 2;
            assert(self.pos =~= right.shifted(0, -2).pos);
            if self.block_collision(grid) {
                self.pos[1] += 2;
                assert(self.pos =~= right.pos);
            } else {
                proof {
                    lemma_free_is_inside(*self, grid@);
                }
            }
        } else {
            *self = before;
        }
    }

    /// Lowers the piece a row at a time until it is blocked, which leaves it
    /// one row past the place where it comes to rest.
    pub fn drop_down(&mut self, grid: &[usize])
        requires
            old(self).block_type < 7,
        ensures
            *final(self) == old(self).dropped(grid@),
            final(self).collides(grid@),
            final(self).pos[1] >= old(self).pos[1],
            final(self).pos[1] == old(self).pos[1] || final(self).pos[1] <= 51,
    {
        let ghost start = *self;
        assert(self.pos =~= start.at_row(self.pos[1] as int).pos);
        while !self.block_collision(grid)
            invariant
                self.block_type < 7,
                *self == start.at_row(self.pos[1] as int),
                self.pos[1] >= start.pos[1],
                self.pos[1] == start.pos[1] || self.pos[1] <= 51,
                start.drop_row(grid@, self.pos[1] as int) == start.drop_row(
                    grid@,
                    start.pos[1] as int,
                ),
            decreases 51 - self.pos[1],
        {
            proof {
                lemma_free_is_inside(*self, grid@);
            }
            self.pos[1] += 2;
            assert(self.pos =~= start.at_row(self.pos[1] as int).pos);
        }
        proof {
            if self.pos[1] > 49 {
                if !self.collides(grid@) {
                    lemma_free_is_inside(*self, grid@);
                }
            }
        }
    }

    /// Whether the piece reaches above the top edge of the playfield.
    pub fn reached_height(&self) -> (high: bool)
        requires
            self.block_type < 7,
        ensures
            high == self.above_top(),
    {
        let mut i: usize = 0;
        while i < 4
            invariant
                i <= 4,
                self.block_type < 7,
                forall|k: int| 0 <= k < i ==> self.row(k) >= 0,
            decreases 4 - i,
        {
            let (_, row) = self.cell(i);
            if row < 0 {
                return true;
            }
            i += 1;
        }
        false
    }
}

/// A cell beyond a side wall or below the floor blocks the piece whatever
/// the grid holds.
pub proof fn lemma_outside_collides(b: Block, grid: Seq<usize>, i: int)
    requires
        0 <= i < 4,
        b.col(i) < 0 || b.col(i) >= TETRIS_W || b.row(i) >= TETRIS_H,
    ensures
        b.collides(grid),
{
}

/// Turning keeps every cell within a cell and a half of the pivot.
pub proof fn lemma_offset_bounded(b: Block, i: int)
    requires
        b.block_type < 7,
        0 <= i < 4,
    ensures
        -3 <= b.offset(i)[0] <= 3,
        -3 <= b.offset(i)[1] <= 3,
{
    lemma_offsets_bounded(b.block_type as int, i);
}

/// A piece between the walls is blocked only by the floor or by a settled
/// cell, so some cell of it is at or below the top edge.
pub proof fn lemma_blocked_is_low(b: Block, grid: Seq<usize>)
    requires
        b.block_type < 7,
        b.within_walls(),
        b.collides(grid),
    ensures
        b.pos[1] >= -3,
{
    lemma_offset_bounded(b, 0);
    lemma_offset_bounded(b, 1);
    lemma_offset_bounded(b, 2);
    lemma_offset_bounded(b, 3);
}

/// A piece that is not blocked lies between the walls and above the floor.
pub proof fn lemma_free_is_inside(b: Block, grid: Seq<usize>)
    requires
        b.block_type < 7,
        !b.collides(grid),
    ensures
        b.within_walls(),
        b.pos[1] <= 49,
        -3 <= b.pos[0] <= 21,
{
    lemma_offset_bounded(b, 0);
    lemma_offset_bounded(b, 1);
    lemma_offset_bounded(b, 2);
    lemma_offset_bounded(b, 3);
}

/// A piece between the walls has its pivot near the playfield.
pub proof fn lemma_walls_bound_pivot(b: Block)
    requires
        b.block_type < 7,
        b.within_walls(),
    ensures
        -3 <= b.pos[0] <= 21,
{
    lemma_offset_bounded(b, 0);
}

/// A piece enters play between the walls, in the two top rows, and is not
/// blocked where those rows are empty.
pub proof fn lemma_spawn_is_inside(block_type: usize, grid: Seq<usize>)
    requires
        block_type < 7,
    ensures
        Block::spawn(block_type).within_walls(),
        !Block::spawn(block_type).above_top(),
        1 <= Block::spawn(block_type).pos[1] <= 2,
        (forall|k: int| 0 <= k < 2 * TETRIS_W ==> grid[k] == 0) ==> !Block::spawn(
            block_type,
        ).collides(grid),
{
    let b = Block::spawn(block_type);
    lemma_offsets_bounded(block_type as int, 0);
    lemma_offsets_bounded(block_type as int, 1);
    lemma_offsets_bounded(block_type as int, 2);
    lemma_offsets_bounded(block_type as int, 3);
    assert(0 <= b.row(0) <= 1 && 3 <= b.col(0) <= 6);
    assert(0 <= b.row(1) <= 1 && 3 <= b.col(1) <= 6);
    assert(0 <= b.row(2) <= 1 && 3 <= b.col(2) <= 6);
    assert(0 <= b.row(3) <= 1 && 3 <= b.col(3) <= 6);
}

/// A piece that is free one column to its left and one column to its right
/// lies between the walls.
pub proof fn lemma_between_is_inside(b: Block, grid: Seq<usize>)
    requires
        b.block_type < 7,
        -100 <= b.pos[0] <= 100,
        !b.shifted(-2, 0).collides(grid),
        !b.shifted(2, 0).collides(grid),
    ensures
        b.within_walls(),
{
    let left = b.shifted(-2, 0);
    let right = b.shifted(2, 0);
    assert(left.offset(0) == b.offset(0) && right.offset(0) == b.offset(0));
    assert(left.offset(1) == b.offset(1) && right.offset(1) == b.offset(1));
    assert(left.offset(2) == b.offset(2) && right.offset(2) == b.offset(2));
    assert(left.offset(3) == b.offset(3) && right.offset(3) == b.offset(3));
}

/// A free piece that is lowered until it is blocked went down at least one
/// row, and was free in the row before the one where it is blocked.
pub proof fn lemma_drop_row_rests(b: Block, grid: Seq<usize>, y: int)
    requires
        b.block_type < 7,
        i32::MIN <= y <= i32::MAX,
        !b.at_row(y).collides(grid),
    ensures
        y + 2 <= b.drop_row(grid, y) <= 51,
        b.at_row(b.drop_row(grid, y)).collides(grid),
        !b.at_row(b.drop_row(grid, y) - 2).collides(grid),
    decreases 51 - y,
{
    reveal_with_fuel(Block::drop_row, 2);
    lemma_free_is_inside(b.at_row(y), grid);
    if !b.at_row(y + 2).collides(grid) {
        lemma_free_is_inside(b.at_row(y + 2), grid);
        lemma_drop_row_rests(b, grid, y + 2);
    }
}

} // verus!
