use tetris::block::Block;
use tetris::engine::{Input, MainLoop, Rolls};

const W: usize = 10;

fn no_keys() -> Input {
    Input {
        restart: false,
        hold: false,
        left_pressed: false,
        right_pressed: false,
        left_released: false,
        right_released: false,
        left_down: false,
        right_down: false,
        rotate: false,
        hard_drop: false,
        soft_drop: false,
    }
}

fn rolls() -> Rolls {
    Rolls { restart: [0, 1, 2, 3, 4, 5, 6] }
}

fn new_game() -> MainLoop {
    MainLoop::new(0, &[0, 1, 2, 3, 4, 5, 6])
}

fn settled(grid: &[usize]) -> usize {
    grid.iter().filter(|&&v| v != 0).count()
}

#[test]
fn a_new_game_is_empty_and_plays_the_front_of_the_queue() {
    let g = MainLoop::new(77, &[3, 0, 6, 1, 1, 4, 2]);
    assert_eq!(g.blocks_order, [1, 4, 2, 3, 5, 0, 6]);
    assert_eq!(g.block.block_type, 1);
    assert_eq!(g.block.pos, [8, 2]);
    assert_eq!(g.block.rot, 0);
    assert_eq!(g.grid, [0usize; 240]);
    assert_eq!(g.full_lines, [false; 24]);
    assert_eq!((g.score, g.best_score), (0, 77));
    assert_eq!((g.elapsed, g.elapsed1, g.elapsed2, g.dir), (0, 0, 0, 0));
    assert_eq!((g.line_clear, g.hold_block_type), (0, 0));
    assert!(!g.game_over && !g.hold_block);
}

#[test]
fn a_hard_drop_on_an_empty_grid_settles_the_piece_in_the_bottom_row() {
    let mut g = new_game();
    assert_eq!(g.block.block_type, 0);
    let keys = Input { hard_drop: true, ..no_keys() };
    g.update(&keys, &rolls());
    let mut expected = [0usize; 240];
    for x in 3..7 {
        expected[x + 23 * W] = 1;
    }
    assert_eq!(g.grid, expected);
    assert_eq!(settled(&g.grid), 4);
    assert_eq!(g.score, 1);
    assert_eq!(g.best_score, 1);
    assert_eq!(g.line_clear, 0);
    assert_eq!(g.full_lines, [false; 24]);
    assert!(!g.game_over);
    assert_eq!(g.blocks_order, [1, 2, 3, 4, 5, 6, 0]);
    assert_eq!(g.block.block_type, 1);
    assert_eq!(g.block.pos, [8, 2]);
}

#[test]
fn filling_the_last_cell_of_a_row_clears_it_and_scores_eleven() {
    let mut g = new_game();
    for x in 0..W {
        if x != 5 {
            g.grid[x + 23 * W] = 7;
        }
    }
    g.block = Block { pos: [9, 1], rot: 1, block_type: 0 };
    g.score = 5;
    g.best_score = 9;
    let drop = Input { hard_drop: true, ..no_keys() };
    g.update(&drop, &rolls());
    assert_eq!(g.score, 16);
    assert_eq!(g.best_score, 16);
    assert_eq!(g.line_clear, 5);
    let mut flags = [false; 24];
    flags[23] = true;
    assert_eq!(g.full_lines, flags);
    assert_eq!(settled(&g.grid), 13);

    // The animation empties one pair of columns every third tick.
    let pairs = [(4, 5), (3, 6), (2, 7), (1, 8), (0, 9)];
    let mut emptied = 0;
    for (step, &(a, b)) in pairs.iter().enumerate() {
        g.update(&drop, &rolls());
        g.update(&drop, &rolls());
        assert_eq!(g.line_clear, 5 - step);
        assert_eq!(settled(&g.grid), 13 - emptied);
        g.update(&drop, &rolls());
        emptied += 2;
        assert_eq!(g.line_clear, 4 - step);
        assert_eq!(g.grid[a + 23 * W], 0);
        assert_eq!(g.grid[b + 23 * W], 0);
        assert_eq!(settled(&g.grid), 13 - emptied);
    }
    assert_eq!(g.block.pos, [8, 2]);
    assert_eq!(g.score, 16);

    // The next tick takes the emptied row out.
    g.update(&no_keys(), &rolls());
    let mut expected = [0usize; 240];
    for y in 21..24 {
        expected[5 + y * W] = 1;
    }
    assert_eq!(g.grid, expected);
    assert_eq!(g.full_lines, [false; 24]);
    assert_eq!(g.line_clear, 0);
    assert_eq!(g.score, 16);
    assert_eq!(g.best_score, 16);
}

#[test]
fn a_restart_after_game_over_keeps_only_the_best_score() {
    let mut g = new_game();
    g.grid[239] = 3;
    g.grid[17] = 2;
    g.score = 12;
    g.best_score = 40;
    g.hold_block_type = 3;
    g.hold_block = true;
    g.game_over = true;
    g.update(&Input { hard_drop: true, left_pressed: true, ..no_keys() }, &rolls());
    assert!(g.game_over);
    assert_eq!(g.score, 12);
    assert_eq!(g.grid[239], 3);
    let draws = Rolls { restart: [3, 0, 6, 1, 1, 4, 2] };
    g.update(&Input { restart: true, ..no_keys() }, &draws);
    assert!(!g.game_over);
    assert_eq!(g.score, 0);
    assert_eq!(g.best_score, 40);
    assert_eq!(g.grid, [0usize; 240]);
    assert_eq!(g.blocks_order, [1, 4, 2, 3, 5, 0, 6]);
    assert_eq!(g.block.block_type, 1);
    assert_eq!(g.hold_block_type, 0);
    assert!(!g.hold_block);
}

#[test]
fn the_restart_key_does_nothing_during_play() {
    let mut g = new_game();
    g.update(&Input { restart: true, ..no_keys() }, &rolls());
    assert_eq!(g.blocks_order, [0, 1, 2, 3, 4, 5, 6]);
    assert_eq!(g.elapsed, 10);
}

#[test]
fn a_second_hold_before_the_next_lock_does_nothing() {
    let mut g = new_game();
    let hold = Input { hold: true, ..no_keys() };
    g.update(&hold, &rolls());
    assert_eq!(g.hold_block_type, 1);
    assert!(g.hold_block);
    assert_eq!(g.blocks_order, [1, 2, 3, 4, 5, 6, 0]);
    assert_eq!(g.block.block_type, 1);
    assert_eq!(g.block.pos, [8, 2]);
    g.update(&hold, &rolls());
    assert_eq!(g.hold_block_type, 1);
    assert!(g.hold_block);
    assert_eq!(g.blocks_order, [1, 2, 3, 4, 5, 6, 0]);
    assert_eq!(g.block.block_type, 1);
    assert_eq!(g.block.pos, [8, 2]);
}

#[test]
fn a_hold_after_a_lock_exchanges_the_piece_with_the_banked_one() {
    let mut g = new_game();
    let hold = Input { hold: true, ..no_keys() };
    g.update(&hold, &rolls());
    assert_eq!(g.hold_block_type, 1);
    assert_eq!(g.block.block_type, 1);
    g.update(&Input { hard_drop: true, ..no_keys() }, &rolls());
    assert!(!g.hold_block);
    assert_eq!(g.score, 1);
    assert_eq!(g.blocks_order, [2, 3, 4, 5, 6, 0, 1]);
    g.update(&hold, &rolls());
    assert!(g.hold_block);
    assert_eq!(g.hold_block_type, 3);
    assert_eq!(g.block.block_type, 0);
    assert_eq!(g.block.pos, [9, 1]);
    assert_eq!(g.blocks_order, [0, 3, 4, 5, 6, 0, 1]);
    // The lock replaces the repeated front before the queue moves up.
    g.update(&Input { hard_drop: true, ..no_keys() }, &rolls());
    assert_eq!(g.blocks_order, [3, 4, 5, 6, 0, 1, 2]);
    assert_eq!(g.block.block_type, 3);
    assert_eq!(g.hold_block_type, 3);
    assert!(!g.hold_block);
}

#[test]
fn seven_pieces_in_a_row_are_seven_different_types() {
    let mut g = MainLoop::new(0, &[3, 0, 6, 1, 1, 4, 2]);
    assert_eq!(g.blocks_order, [1, 4, 2, 3, 5, 0, 6]);
    let mut played = [0usize; 14];
    for k in 0..14 {
        played[k] = g.block.block_type;
        // Each piece is dropped in its own pair of columns or on the last.
        g.block.pos[0] += 2 * (k as i32 % 3) - 2;
        let score = g.score;
        g.update(&Input { hard_drop: true, ..no_keys() }, &rolls());
        assert!(g.score > score);
        assert!(!g.game_over);
        while g.line_clear != 0 || g.full_lines != [false; 24] {
            g.update(&no_keys(), &rolls());
        }
    }
    assert_eq!(&played[..7], &[1, 4, 2, 3, 5, 0, 6]);
    for from in 0..8 {
        let mut seen = [false; 7];
        for &t in played[from..from + 7].iter() {
            assert!(!seen[t]);
            seen[t] = true;
        }
    }
}

#[test]
fn a_piece_that_starts_the_tick_on_a_settled_cell_ends_the_game() {
    let mut g = MainLoop::new(0, &[1, 1, 2, 3, 4, 5, 6]);
    assert_eq!(g.block.block_type, 1);
    g.grid[14] = 1;
    assert!(g.block.block_collision(&g.grid));
    let before = g.grid;
    g.update(&no_keys(), &rolls());
    assert!(g.game_over);
    assert_eq!(g.grid, before);
    assert_eq!(g.score, 0);
    assert_eq!(g.block.pos, [8, 0]);
}

#[test]
fn a_finished_game_and_a_clear_need_no_room_in_the_score() {
    let mut g = new_game();
    g.score = u128::MAX;
    g.best_score = u128::MAX;
    g.game_over = true;
    g.update(&no_keys(), &rolls());
    assert_eq!(g.score, u128::MAX);
    g.update(&Input { restart: true, ..no_keys() }, &rolls());
    assert_eq!((g.score, g.best_score), (0, u128::MAX));

    let mut c = new_game();
    c.score = u128::MAX;
    c.best_score = u128::MAX;
    c.line_clear = 2;
    c.full_lines[23] = true;
    c.update(&no_keys(), &rolls());
    assert_eq!(c.score, u128::MAX);
    assert_eq!(c.line_clear, 2);
}

#[test]
fn a_side_key_moves_at_once_and_repeats_after_the_delay() {
    let mut g = new_game();
    g.update(&Input { left_pressed: true, left_down: true, ..no_keys() }, &rolls());
    assert_eq!(g.block.pos, [7, 1]);
    assert_eq!((g.dir, g.elapsed2), (-1, 200));
    let held = Input { left_down: true, ..no_keys() };
    for _ in 0..19 {
        g.update(&held, &rolls());
    }
    assert_eq!(g.block.pos, [7, 1]);
    assert_eq!(g.elapsed2, 10);
    g.update(&held, &rolls());
    assert_eq!(g.block.pos, [5, 1]);
    assert_eq!(g.elapsed2, 50);
    for _ in 0..4 {
        g.update(&held, &rolls());
    }
    assert_eq!(g.block.pos, [5, 1]);
    g.update(&held, &rolls());
    assert_eq!(g.block.pos, [3, 1]);
    // The wall stops the piece.
    for _ in 0..5 {
        g.update(&held, &rolls());
    }
    assert_eq!(g.block.pos, [3, 1]);
    g.update(&Input { left_released: true, ..no_keys() }, &rolls());
    assert_eq!(g.dir, 0);
}

#[test]
fn the_right_key_moves_right_and_the_wall_stops_it() {
    let mut g = new_game();
    let right = Input { right_pressed: true, ..no_keys() };
    for k in 1..4 {
        g.update(&right, &rolls());
        assert_eq!(g.block.pos, [9 + 2 * k, 1]);
        assert_eq!(g.dir, 1);
    }
    g.update(&right, &rolls());
    assert_eq!(g.block.pos, [15, 1]);
}

#[test]
fn releasing_the_other_key_keeps_the_held_direction() {
    let mut g = new_game();
    g.update(&Input { right_pressed: true, ..no_keys() }, &rolls());
    g.update(&Input { left_released: true, ..no_keys() }, &rolls());
    assert_eq!(g.dir, 1);
    g.update(&Input { right_released: true, ..no_keys() }, &rolls());
    assert_eq!(g.dir, 0);
}

#[test]
fn the_rotate_key_turns_the_piece() {
    let mut g = new_game();
    g.update(&Input { rotate: true, ..no_keys() }, &rolls());
    assert_eq!(g.block.rot, 1);
    assert_eq!(g.block.pos, [9, 1]);
}

#[test]
fn gravity_moves_the_piece_down_every_hundred_and_fifty_ticks() {
    let mut g = new_game();
    for _ in 0..149 {
        g.update(&no_keys(), &rolls());
    }
    assert_eq!(g.block.pos, [9, 1]);
    assert_eq!(g.elapsed, 1490);
    g.update(&no_keys(), &rolls());
    assert_eq!(g.block.pos, [9, 3]);
    assert_eq!(g.elapsed, 0);
    assert_eq!(g.score, 0);
}

#[test]
fn a_soft_drop_moves_the_piece_down_every_third_tick() {
    let mut g = new_game();
    let down = Input { soft_drop: true, ..no_keys() };
    g.update(&down, &rolls());
    g.update(&down, &rolls());
    assert_eq!(g.block.pos, [9, 1]);
    assert_eq!((g.elapsed, g.elapsed1), (20, 20));
    g.update(&down, &rolls());
    assert_eq!(g.block.pos, [9, 3]);
    assert_eq!((g.elapsed, g.elapsed1), (0, 0));
}

#[test]
fn a_blocked_soft_drop_leaves_the_gravity_clock_running() {
    let mut g = new_game();
    g.block.pos = [9, 47];
    let down = Input { soft_drop: true, ..no_keys() };
    for _ in 0..3 {
        g.update(&down, &rolls());
    }
    assert_eq!(g.block.pos, [9, 47]);
    assert_eq!((g.elapsed, g.elapsed1), (30, 0));
    assert_eq!(g.score, 0);
}

#[test]
fn gravity_locks_a_piece_that_rests_on_the_floor() {
    let mut g = new_game();
    g.block.pos = [9, 47];
    g.elapsed = 1480;
    g.update(&no_keys(), &rolls());
    assert_eq!(g.score, 0);
    g.update(&no_keys(), &rolls());
    assert_eq!(g.score, 1);
    assert_eq!(settled(&g.grid), 4);
    assert_eq!(g.grid[233], 1);
    assert_eq!((g.elapsed, g.elapsed1), (0, 0));
}

#[test]
fn a_piece_that_rests_above_the_top_ends_the_game() {
    let mut g = new_game();
    for x in 3..7 {
        g.grid[x + W] = 2;
    }
    let drop = Input { hard_drop: true, ..no_keys() };
    g.update(&drop, &rolls());
    assert!(!g.game_over);
    assert_eq!(g.score, 1);
    assert_eq!(settled(&g.grid), 8);
    // The next piece enters raised clear of the stack.
    assert_eq!(g.block.block_type, 1);
    assert_eq!(g.block.pos, [8, -2]);
    g.update(&drop, &rolls());
    assert!(g.game_over);
    assert_eq!(g.score, 1);
    assert_eq!(g.best_score, 1);
    assert_eq!(settled(&g.grid), 8);
    assert_eq!(g.block.pos, [8, -2]);
}

#[test]
fn the_landing_preview_rests_on_the_stack() {
    let mut g = new_game();
    assert_eq!(g.ghost_position(), [9, 47]);
    g.grid[4 + 20 * W] = 6;
    assert_eq!(g.ghost_position(), [9, 39]);
    assert_eq!(g.block.pos, [9, 1]);
}

#[test]
fn the_score_counts_one_for_a_piece_and_ten_for_each_row() {
    let mut g = new_game();
    for y in 20..24 {
        for x in 0..W {
            if x != 5 {
                g.grid[x + y * W] = 7;
            }
        }
    }
    g.block = Block { pos: [9, 1], rot: 1, block_type: 0 };
    g.best_score = 100;
    g.update(&Input { hard_drop: true, ..no_keys() }, &rolls());
    assert_eq!(g.score, 41);
    assert_eq!(g.best_score, 100);
    assert_eq!(g.line_clear, 5);
    for _ in 0..16 {
        g.update(&no_keys(), &rolls());
    }
    assert_eq!(g.grid, [0usize; 240]);
    assert_eq!(g.score, 41);
}
