use tetris::block::{Block, Rotate90, BLOCK_OFFSETS};

#[test]
fn quarter_turns_follow_the_sign_and_swap_rules() {
    let v: [i32; 2] = [3, -1];
    assert_eq!(v.rotate90(0), [3, -1]);
    assert_eq!(v.rotate90(1), [1, 3]);
    assert_eq!(v.rotate90(2), [-3, 1]);
    assert_eq!(v.rotate90(3), [-1, -3]);
}

#[test]
fn four_quarter_turns_return_every_table_entry() {
    for shape in BLOCK_OFFSETS.iter() {
        for v in shape.iter() {
            for rot in 0..4i8 {
                let mut w = *v;
                for _ in 0..4 {
                    w = w.rotate90(rot);
                }
                assert_eq!(w, *v);
            }
        }
    }
}

#[test]
fn a_new_piece_enters_at_its_spawn_position() {
    assert_eq!(Block::new(0).pos, [9, 1]);
    assert_eq!(Block::new(3).pos, [9, 1]);
    assert_eq!(Block::new(1).pos, [8, 2]);
    assert_eq!(Block::new(6).rot, 0);
    assert_eq!(Block::new(5).block_type, 5);
}

#[test]
fn cells_round_half_cells_away_from_zero() {
    // Type 1 has even offsets, so an odd pivot puts every cell midway.
    let b = Block { pos: [-1, 1], rot: 0, block_type: 1 };
    assert_eq!(b.cell(0), (-2, 1));
    assert_eq!(b.cell(1), (-1, 1));
    assert_eq!(b.cell(2), (1, 1));
    assert_eq!(b.cell(3), (1, -1));
}

#[test]
fn the_cells_of_the_spawned_pieces() {
    let i = Block::new(0);
    assert_eq!([i.cell(0), i.cell(1), i.cell(2), i.cell(3)], [(3, 0), (4, 0), (5, 0), (6, 0)]);
    let o = Block::new(3);
    assert_eq!([o.cell(0), o.cell(1), o.cell(2), o.cell(3)], [(4, 0), (5, 0), (4, 1), (5, 1)]);
    let t = Block::new(5);
    assert_eq!([t.cell(0), t.cell(1), t.cell(2), t.cell(3)], [(3, 1), (4, 1), (4, 0), (5, 1)]);
}

#[test]
fn a_piece_beyond_a_wall_or_the_floor_collides_whatever_the_grid_holds() {
    let empty = [0usize; 240];
    let full = [1usize; 240];
    let none: [usize; 0] = [];
    let left = Block { pos: [1, 21], rot: 0, block_type: 0 };
    let right = Block { pos: [17, 21], rot: 0, block_type: 0 };
    let floor = Block { pos: [9, 49], rot: 0, block_type: 0 };
    for b in [left, right, floor].iter() {
        assert!(b.block_collision(&empty));
        assert!(b.block_collision(&full));
        assert!(b.block_collision(&none));
    }
}

#[test]
fn a_piece_in_free_cells_does_not_collide() {
    let mut grid = [0usize; 240];
    let b = Block { pos: [9, 47], rot: 0, block_type: 0 };
    assert!(!b.block_collision(&grid));
    grid[232] = 4;
    grid[237] = 4;
    grid[223] = 4;
    assert!(!b.block_collision(&grid));
    grid[235] = 2;
    assert!(b.block_collision(&grid));
}

#[test]
fn cells_above_the_top_collide_with_the_walls_only() {
    let full = [1usize; 240];
    let above = Block { pos: [9, -1], rot: 0, block_type: 0 };
    assert!(!above.block_collision(&full));
    assert!(above.reached_height());
    let above_left = Block { pos: [1, -1], rot: 0, block_type: 0 };
    assert!(above_left.block_collision(&full));
    let edge = Block { pos: [9, 1], rot: 0, block_type: 0 };
    assert!(edge.block_collision(&full));
    assert!(!edge.reached_height());
}

#[test]
fn a_piece_reaches_above_the_top_when_any_cell_does() {
    assert!(!Block::new(1).reached_height());
    assert!(Block { pos: [8, 0], rot: 0, block_type: 1 }.reached_height());
    assert!(Block { pos: [9, 1], rot: 1, block_type: 0 }.reached_height());
    assert!(!Block { pos: [9, 3], rot: 1, block_type: 0 }.reached_height());
}

#[test]
fn lifting_stops_at_the_first_free_row() {
    let mut grid = [0usize; 240];
    for x in 0..10 {
        grid[x + 230] = 1;
        grid[x + 220] = 1;
    }
    let mut b = Block { pos: [9, 47], rot: 0, block_type: 0 };
    b.lift(&grid);
    assert_eq!(b.pos, [9, 43]);
    b.lift(&grid);
    assert_eq!(b.pos, [9, 43]);
}

#[test]
fn lifting_ends_above_a_full_grid() {
    let grid = [1usize; 240];
    let mut b = Block { pos: [9, 21], rot: 1, block_type: 0 };
    b.lift(&grid);
    assert_eq!(b.pos, [9, -5]);
    assert!(!b.block_collision(&grid));
}

#[test]
fn dropping_stops_one_row_into_the_floor() {
    let grid = [0usize; 240];
    let mut b = Block::new(0);
    b.drop_down(&grid);
    assert_eq!(b.pos, [9, 49]);
    assert!(b.block_collision(&grid));
    b.drop_down(&grid);
    assert_eq!(b.pos, [9, 49]);
}

#[test]
fn dropping_stops_one_row_into_the_stack() {
    let mut grid = [0usize; 240];
    grid[5 + 10 * 10] = 3;
    let mut b = Block::new(0);
    b.drop_down(&grid);
    assert_eq!(b.pos, [9, 21]);
}

#[test]
fn the_square_does_not_turn() {
    let grid = [0usize; 240];
    let mut b = Block::new(3);
    b.turn(&grid);
    assert_eq!((b.pos, b.rot), ([9, 1], 0));
}

#[test]
fn a_free_piece_turns_in_place_and_wraps_after_three() {
    let grid = [0usize; 240];
    let mut b = Block { pos: [8, 20], rot: 0, block_type: 5 };
    for expected in [1i8, 2, 3, 0, 1] {
        b.turn(&grid);
        assert_eq!((b.pos, b.rot), ([8, 20], expected));
    }
}

#[test]
fn a_turn_blocked_on_the_left_kicks_right() {
    let grid = [0usize; 240];
    let mut b = Block { pos: [0, 20], rot: 1, block_type: 1 };
    assert!(!b.block_collision(&grid));
    b.turn(&grid);
    assert_eq!((b.pos, b.rot), ([2, 20], 2));
}

#[test]
fn a_turn_blocked_on_the_right_kicks_left() {
    let grid = [0usize; 240];
    // A vertical J piece against the right wall.
    let mut b = Block { pos: [18, 20], rot: 3, block_type: 1 };
    assert!(!b.block_collision(&grid));
    b.turn(&grid);
    assert_eq!((b.pos, b.rot), ([16, 20], 0));
}

#[test]
fn a_turn_with_both_sides_free_kicks_right_and_up() {
    let mut grid = [0usize; 240];
    grid[5 + 11 * 10] = 1;
    let mut b = Block { pos: [9, 21], rot: 0, block_type: 0 };
    assert!(!b.block_collision(&grid));
    b.turn(&grid);
    assert_eq!((b.pos, b.rot), ([11, 19], 1));
}

#[test]
fn a_turn_with_both_sides_free_stays_level_when_blocked_above() {
    let mut grid = [0usize; 240];
    grid[5 + 11 * 10] = 1;
    grid[6 + 8 * 10] = 2;
    let mut b = Block { pos: [9, 21], rot: 0, block_type: 0 };
    b.turn(&grid);
    assert_eq!((b.pos, b.rot), ([11, 21], 1));
}

#[test]
fn a_turn_with_both_sides_blocked_is_undone() {
    let grid = [0usize; 240];
    // A vertical I piece in the leftmost column has no room to lie down.
    let mut b = Block { pos: [-1, 21], rot: 1, block_type: 0 };
    assert!(!b.block_collision(&grid));
    b.turn(&grid);
    assert_eq!((b.pos, b.rot), ([-1, 21], 1));
}
