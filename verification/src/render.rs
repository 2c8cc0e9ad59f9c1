//! What a frame shows: the rectangles that make up the playfield, the piece
//! in play with its landing preview, and the pieces waiting at the sides.
//!
//! Nothing here draws. Each function computes rectangles in window pixels
//! for a presentation layer to paint in the order given.

use crate::block::{lemma_offset_bounded, Block, BLOCK_COLS, TETRIS_H, TETRIS_W};
use crate::engine::{MainLoop, State};
use crate::grid::GRID_CELLS;
use vstd::prelude::*;

verus! {

/// Width of the window in pixels.
pub const WIDTH: i32 = 800;

/// Height of the window in pixels.
pub const HEIGHT: i32 = 600;

/// Side of a cell in pixels.
pub const BLOCK_SIZE: i32 = 20;

/// Top left corner of the playfield in the window.
pub const START: [i32; 2] = [300, 60];

/// Bottom right corner of the playfield in the window.
pub const END: [i32; 2] = [500, 540];

/// Thickness of the lines between cells in pixels.
pub const GRID_OUTLINE_THICKNESS: i32 = 1;

/// Height of the text in pixels.
pub const FONT_SIZE: i32 = 20;

/// Opacity of the landing preview.
pub const GHOST_ALPHA: u8 = 127;

/// A rectangle in window pixels with its colour as red, green, blue and
/// opacity.
#[derive(Clone, Copy, Debug, PartialEq, Eq)]
pub struct Rect {
    pub x: i32,
    pub y: i32,
    pub width: i32,
    pub height: i32,
    pub color: [u8; 4],
}

/// The rectangle of the cell in column `x` and row `y`, moved by `shift`
/// pixels.
pub open spec fn cell_rect(x: int, y: int, shift: [i32; 2], color: [u8; 4]) -> Rect {
    Rect {
        x: (START[0] + x * BLOCK_SIZE + shift[0]) as i32,
        y: (START[1] + y * BLOCK_SIZE + shift[1]) as i32,
        width: BLOCK_SIZE,
        height: BLOCK_SIZE,
        color,
    }
}

/// The colour of a piece type at the given opacity.
pub open spec fn type_color(block_type: usize, alpha: u8) -> [u8; 4] {
    [
        BLOCK_COLS[block_type as int][0],
        BLOCK_COLS[block_type as int][1],
        BLOCK_COLS[block_type as int][2],
        alpha,
    ]
}

/// The colour of a grid cell: that of the piece type settled there, or
/// nothing at all for an empty cell.
pub open spec fn cell_color(v: usize) -> [u8; 4] {
    if v != 0 {
        type_color((v - 1) as usize, 255)
    } else {
        [0u8, 0u8, 0u8, 0u8]
    }
}

/// One rectangle for every cell of the playfield, row by row.
pub open spec fn grid_rects(grid: Seq<usize>) -> Seq<Rect> {
    Seq::new(
        GRID_CELLS as nat,
        |k: int| cell_rect(k % TETRIS_W as int, k / TETRIS_W as int, [0, 0], cell_color(grid[k])),
    )
}

/// One black rectangle for every cell of the playfield, row by row, to be
/// drawn as a frame.
pub open spec fn outline_rects() -> Seq<Rect> {
    Seq::new(
        GRID_CELLS as nat,
        |k: int| cell_rect(k % TETRIS_W as int, k / TETRIS_W as int, [0, 0], [0u8, 0u8, 0u8, 255u8]),
    )
}

/// Cell `i` of the piece lies in the playfield.
pub open spec fn cell_visible(b: Block, i: int) -> bool {
    0 <= b.col(i) < TETRIS_W && 0 <= b.row(i) < TETRIS_H
}

/// The rectangles of the first `n` cells of the piece, in order. With
/// `clip` set, cells outside the playfield are left out.
pub open spec fn block_rects(b: Block, alpha: u8, clip: bool, shift: [i32; 2], n: int) -> Seq<
    Rect,
>
    decreases n,
{
    if n <= 0 {
        Seq::empty()
    } else if clip && !cell_visible(b, n - 1) {
        block_rects(b, alpha, clip, shift, n - 1)
    } else {
        block_rects(b, alpha, clip, shift, n - 1).push(
            cell_rect(b.col(n - 1), b.row(n - 1), shift, type_color(b.block_type, alpha)),
        )
    }
}

fn color_of(block_type: usize, alpha: u8) -> (c: [u8; 4])
    requires
        block_type < 7,
    ensures
        c == type_color(block_type, alpha),
{
    let col = BLOCK_COLS[block_type];
    [col[0], col[1], col[2], alpha]
}

/// The rectangles of the settled cells: one for every cell of the
/// playfield, row by row, transparent where the cell is empty.
pub fn render_grid(grid: &[usize]) -> (out: Vec<Rect>)
    requires
        grid@.len() >= GRID_CELLS,
        forall|k: int| 0 <= k < GRID_CELLS ==> grid@[k] <= 7,
    ensures
        out@ == grid_rects(grid@),
{
    let mut out: Vec<Rect> = Vec::new();
    let mut y: usize = 0;
    while y < TETRIS_H
        invariant
            y <= TETRIS_H,
            grid@.len() >= GRID_CELLS,
            forall|k: int| 0 <= k < GRID_CELLS ==> grid@[k] <= 7,
            out@.len() == y * TETRIS_W,
            forall|k: int| 0 <= k < y * TETRIS_W ==> out@[k] == grid_rects(grid@)[k],
        decreases TETRIS_H - y,
    {
        let mut x: usize = 0;
        while x < TETRIS_W
            invariant
                x <= TETRIS_W,
                y < TETRIS_H,
                grid@.len() >= GRID_CELLS,
                forall|k: int| 0 <= k < GRID_CELLS ==> grid@[k] <= 7,
                out@.len() == y * TETRIS_W + x,
                forall|k: int| 0 <= k < y * TETRIS_W + x ==> out@[k] == grid_rects(grid@)[k],
            decreases TETRIS_W - x,
        {
            let v = grid[x + y * TETRIS_W];
            let color = if v != 0 {
                color_of(v - 1, 255)
            } else {
                [0, 0, 0, 0]
            };
            out.push(
                Rect {
                    x: START[0] + x as i32 * BLOCK_SIZE,
                    y: START[1] + y as i32 * BLOCK_SIZE,
                    width: BLOCK_SIZE,
                    height: BLOCK_SIZE,
                    color,
                },
            );
            x += 1;
        }
        y += 1;
    }
    assert(out@ =~= grid_rects(grid@));
    out
}

/// The frames of the cells: one black rectangle for every cell of the
/// playfield, row by row.
pub fn render_grid_outline() -> (out: Vec<Rect>)
    ensures
        out@ == outline_rects(),
{
    let mut out: Vec<Rect> = Vec::new();
    let mut y: usize = 0;
    while y < TETRIS_H
        invariant
            y <= TETRIS_H,
            out@.len() == y * TETRIS_W,
            forall|k: int| 0 <= k < y * TETRIS_W ==> out@[k] == outline_rects()[k],
        decreases TETRIS_H - y,
    {
        let mut x: usize = 0;
        while x < TETRIS_W
            invariant
                x <= TETRIS_W,
                y < TETRIS_H,
                out@.len() == y * TETRIS_W + x,
                forall|k: int| 0 <= k < y * TETRIS_W + x ==> out@[k] == outline_rects()[k],
            decreases TETRIS_W - x,
        {
            out.push(
                Rect {
                    x: START[0] + x as i32 * BLOCK_SIZE,
                    y: START[1] + y as i32 * BLOCK_SIZE,
                    width: BLOCK_SIZE,
                    height: BLOCK_SIZE,
                    color: [0, 0, 0, 255],
                },
            );
            x += 1;
        }
        y += 1;
    }
    assert(out@ =~= outline_rects());
    out
}

fn render_block_at(b: &Block, alpha: u8, clip: bool, shift: [i32; 2]) -> (out: Vec<Rect>)
    requires
        b.block_type < 7,
        clip || (-1000 <= b.pos[0] <= 1000 && -1000 <= b.pos[1] <= 1000),
        -1000 <= shift[0] <= 1000,
        -1000 <= shift[1] <= 1000,
    ensures
        out@ == block_rects(*b, alpha, clip, shift, 4),
{
    let mut out: Vec<Rect> = Vec::new();
    let mut i: usize = 0;
    while i < 4
        invariant
            i <= 4,
            b.block_type < 7,
            clip || (-1000 <= b.pos[0] <= 1000 && -1000 <= b.pos[1] <= 1000),
            -1000 <= shift[0] <= 1000,
            -1000 <= shift[1] <= 1000,
            out@ == block_rects(*b, alpha, clip, shift, i as int),
        decreases 4 - i,
    {
        let (col, row) = b.cell(i);
        let outside = col < 0 || col >= TETRIS_W as i64 || row < 0 || row >= TETRIS_H as i64;
        if !(clip && outside) {
            proof {
                lemma_offset_bounded(*b, i as int);
            }
            out.push(
                Rect {
                    x: START[0] + col as i32 * BLOCK_SIZE + shift[0],
                    y: START[1] + row as i32 * BLOCK_SIZE + shift[1],
                    width: BLOCK_SIZE,
                    height: BLOCK_SIZE,
                    color: color_of(b.block_type, alpha),
                },
            );
        }
        i += 1;
    }
    out
}

/// The rectangles of the cells of a piece that lie in the playfield, in the
/// order of its cells.
pub fn render_block(b: &Block, transparency: u8) -> (out: Vec<Rect>)
    requires
        b.block_type < 7,
    ensures
        out@ == block_rects(*b, transparency, true, [0, 0], 4),
{
    render_block_at(b, transparency, true, [0, 0])
}

/// The pixel shift that centres a waiting piece in its box. Pieces whose
/// pivot lies between cells sit half a cell to the left of the others.
pub open spec fn preview_shift(block_type: usize, base: int) -> [i32; 2] {
    [
        if block_type == 0 || block_type == 3 {
            (base - BLOCK_SIZE / 2) as i32
        } else {
            base as i32
        },
        (BLOCK_SIZE / 2) as i32,
    ]
}

/// The rectangles of a waiting piece: the piece at its spawn pose, moved by
/// whole cells into its box beside the playfield and centred there.
pub open spec fn preview_rects(block_type: usize, dx: int, dy: int, base: int) -> Seq<Rect> {
    block_rects(
        Block::spawn(block_type).shifted(2 * dx, 2 * dy),
        255,
        false,
        preview_shift(block_type, base),
        4,
    )
}

fn render_preview(block_type: usize, dx: i32, dy: i32, base: i32) -> (out: Vec<Rect>)
    requires
        block_type < 7,
        -100 <= dx <= 100,
        -100 <= dy <= 100,
        0 <= base <= 100,
    ensures
        out@ == preview_rects(block_type, dx as int, dy as int, base as int),
{
    let mut b = Block::new(block_type);
    let ghost spawn = b;
    b.pos[0] += 2 * dx;
    b.pos[1] += 2 * dy;
    assert(b.pos =~= spawn.shifted(2 * dx, 2 * dy).pos);
    let shift = [
        if block_type == 0 || block_type == 3 {
            base - BLOCK_SIZE / 2
        } else {
            base
        },
        BLOCK_SIZE / 2,
    ];
    render_block_at(&b, 255, false, shift)
}

/// Columns between the playfield and the middle of a box beside it.
pub const PREVIEW_COLUMNS: i32 = 10;

/// What one frame shows, as rectangles in the order in which they are
/// painted within each list.
pub struct Frame {
    /// The settled cells.
    pub grid: Vec<Rect>,
    /// The landing preview of the piece in play; empty during a clear.
    pub landing: Vec<Rect>,
    /// The piece in play; empty during a clear.
    pub block: Vec<Rect>,
    /// The frames of the cells.
    pub outline: Vec<Rect>,
    /// The banked piece in its box left of the playfield; empty while
    /// nothing is banked.
    pub hold: Vec<Rect>,
    /// The next piece in the upper half of the box right of the playfield.
    pub next: Vec<Rect>,
    /// The piece after the next in the lower half of that box.
    pub after_next: Vec<Rect>,
    pub score: u128,
    pub best_score: u128,
    pub game_over: bool,
}

impl MainLoop {
    /// What the frame shows of the game. The game is only read.
    pub fn render(&self) -> (frame: Frame)
        requires
            self@.sane(),
        ensures
            frame.grid@ == grid_rects(self.grid@),
            frame.outline@ == outline_rects(),
            frame.landing@ == if self.line_clear == 0 {
                block_rects(self@.ghost(), GHOST_ALPHA, true, [0, 0], 4)
            } else {
                Seq::empty()
            },
            frame.block@ == if self.line_clear == 0 {
                block_rects(self.block, 255, true, [0, 0], 4)
            } else {
                Seq::empty()
            },
            frame.hold@ == if self.hold_block_type != 0 {
                preview_rects(
                    (self.hold_block_type - 1) as usize,
                    -PREVIEW_COLUMNS as int,
                    1,
                    BLOCK_SIZE as int / 2,
                )
            } else {
                Seq::empty()
            },
            frame.next@ == preview_rects(self.blocks_order[1], PREVIEW_COLUMNS as int, 1, 0),
            frame.after_next@ == preview_rects(self.blocks_order[2], PREVIEW_COLUMNS as int, 6, 0),
            frame.score == self.score,
            frame.best_score == self.best_score,
            frame.game_over == self.game_over,
    {
        proof {
            reveal(State::sane);
        }
        let grid = render_grid(&self.grid);
        let mut landing: Vec<Rect> = Vec::new();
        let mut block: Vec<Rect> = Vec::new();
        if self.line_clear == 0 {
            let mut rest = self.block;
            rest.pos = self.ghost_position();
            landing = render_block(&rest, GHOST_ALPHA);
            block = render_block(&self.block, 255);
        }
        let outline = render_grid_outline();
        let mut hold: Vec<Rect> = Vec::new();
        if self.hold_block_type != 0 {
            hold = render_preview(self.hold_block_type - 1, -PREVIEW_COLUMNS, 1, BLOCK_SIZE / 2);
        }
        let next = render_preview(self.blocks_order[1], PREVIEW_COLUMNS, 1, 0);
        let after_next = render_preview(self.blocks_order[2], PREVIEW_COLUMNS, 6, 0);
        Frame {
            grid,
            landing,
            block,
            outline,
            hold,
            next,
            after_next,
            score: self.score,
            best_score: self.best_score,
            game_over: self.game_over,
        }
    }
}

} // verus!
