use tetris::queue::{advance, restore_front, shuffle};

fn is_full_bag(q: &[usize; 7]) -> bool {
    let mut seen = [false; 7];
    for &t in q.iter() {
        if t >= 7 || seen[t] {
            return false;
        }
        seen[t] = true;
    }
    true
}

#[test]
fn shuffle_exchanges_each_position_with_its_draw() {
    let mut items = [0usize, 1, 2, 3, 4, 5, 6];
    shuffle(&mut items, &[3, 0, 6, 1, 1, 4, 2]);
    assert_eq!(items, [1, 4, 2, 3, 5, 0, 6]);

    let mut three = [7usize, 8, 9];
    shuffle(&mut three, &[2, 2, 0]);
    assert_eq!(three, [8, 7, 9]);
}

#[test]
fn shuffle_with_own_positions_changes_nothing() {
    let mut items = [4usize, 2, 6, 0];
    shuffle(&mut items, &[0, 1, 2, 3]);
    assert_eq!(items, [4, 2, 6, 0]);
}

#[test]
fn shuffle_of_nothing_is_nothing() {
    let mut items: [usize; 0] = [];
    shuffle(&mut items, &[]);
    assert_eq!(items.len(), 0);
}

#[test]
fn shuffle_keeps_every_item() {
    let mut items = [5usize, 5, 1, 9, 0, 3];
    shuffle(&mut items, &[5, 4, 3, 2, 1, 0]);
    let mut sorted = items;
    sorted.sort();
    assert_eq!(sorted, [0, 1, 3, 5, 5, 9]);
}

#[test]
fn restore_front_leaves_a_full_bag_alone() {
    let mut q = [3usize, 0, 1, 2, 4, 5, 6];
    restore_front(&mut q);
    assert_eq!(q, [3, 0, 1, 2, 4, 5, 6]);
}

#[test]
fn restore_front_replaces_a_repeated_front_by_the_missing_type() {
    let mut q = [3usize, 1, 2, 3, 4, 5, 6];
    restore_front(&mut q);
    assert_eq!(q, [0, 1, 2, 3, 4, 5, 6]);

    let mut r = [0usize, 0, 1, 2, 3, 4, 6];
    restore_front(&mut r);
    assert_eq!(r, [5, 0, 1, 2, 3, 4, 6]);
}

#[test]
fn restore_front_picks_the_least_missing_type() {
    let mut q = [6usize, 6, 6, 6, 6, 6, 6];
    restore_front(&mut q);
    assert_eq!(q, [0, 6, 6, 6, 6, 6, 6]);
}

#[test]
fn advance_moves_the_front_to_the_end() {
    let mut q = [0usize, 1, 2, 3, 4, 5, 6];
    advance(&mut q);
    assert_eq!(q, [1, 2, 3, 4, 5, 6, 0]);

    let mut r = [4usize, 6, 0, 2, 5, 1, 3];
    advance(&mut r);
    assert_eq!(r, [6, 0, 2, 5, 1, 3, 4]);
}

#[test]
fn seven_refills_in_a_row_bring_up_seven_different_types() {
    let start = [4usize, 6, 0, 2, 5, 1, 3];
    let mut q = start;
    let mut fronts = [0usize; 7];
    for k in 0..7 {
        assert!(is_full_bag(&q));
        fronts[k] = q[0];
        restore_front(&mut q);
        advance(&mut q);
    }
    assert_eq!(fronts, start);
    assert!(is_full_bag(&fronts));
    assert_eq!(q, start);
}

#[test]
fn any_seven_refills_in_a_row_bring_up_seven_different_types() {
    let mut q = [2usize, 5, 1, 0, 6, 3, 4];
    let mut fronts = [0usize; 20];
    for k in 0..20 {
        fronts[k] = q[0];
        restore_front(&mut q);
        advance(&mut q);
    }
    for from in 0..14 {
        let mut run = [0usize; 7];
        run.copy_from_slice(&fronts[from..from + 7]);
        assert!(is_full_bag(&run));
    }
}

#[test]
fn a_refill_after_an_exchange_restores_the_bag() {
    // The front was exchanged for a banked type that also waits behind it.
    let mut q = [4usize, 1, 2, 3, 4, 5, 6];
    restore_front(&mut q);
    advance(&mut q);
    assert!(is_full_bag(&q));
    assert_eq!(q, [1, 2, 3, 4, 5, 6, 0]);
}
