use life::engine::{count_live_neighbors, idx, step};

fn board(w: usize, h: usize, live: &[(usize, usize)]) -> Vec<bool> {
    let mut b = vec![false; w * h];
    for &(x, y) in live {
        b[y * w + x] = true;
    }
    b
}

#[test]
fn idx_is_row_major() {
    assert_eq!(idx(0, 0, 4), 0);
    assert_eq!(idx(3, 0, 4), 3);
    assert_eq!(idx(0, 1, 4), 4);
    assert_eq!(idx(2, 1, 4), 6);
    assert_eq!(idx(3, 2, 4), 11);
}

#[test]
fn step_is_deterministic() {
    let b = board(6, 5, &[(1, 1), (2, 1), (3, 1), (0, 4), (5, 0)]);
    let first = step(&b, 6, 5);
    let second = step(&b, 6, 5);
    assert_eq!(first, second);
}

#[test]
fn step_keeps_board_length() {
    for &(w, h) in &[(1usize, 1usize), (3, 7), (4, 4), (60, 30)] {
        let b = vec![false; w * h];
        let next = step(&b, w, h);
        assert_eq!(next.len(), b.len());
        assert_eq!(next.len(), w * h);
    }
}

#[test]
fn step_does_not_mutate_its_input() {
    let b = board(5, 5, &[(1, 2), (2, 2), (3, 2)]);
    let copy = b.clone();
    let _ = step(&b, 5, 5);
    assert_eq!(b, copy);
}

#[test]
fn block_is_a_still_life() {
    let b = board(4, 4, &[(1, 1), (2, 1), (1, 2), (2, 2)]);
    assert_eq!(step(&b, 4, 4), b);

    let wide = board(7, 5, &[(1, 1), (2, 1), (1, 2), (2, 2)]);
    assert_eq!(step(&wide, 7, 5), wide);
}

#[test]
fn blinker_oscillates_with_period_two() {
    let horizontal = board(5, 5, &[(1, 2), (2, 2), (3, 2)]);
    let vertical = board(5, 5, &[(2, 1), (2, 2), (2, 3)]);
    let once = step(&horizontal, 5, 5);
    assert_eq!(once, vertical);
    let twice = step(&once, 5, 5);
    assert_eq!(twice, horizontal);
}

#[test]
fn isolated_cell_dies_of_underpopulation() {
    let b = board(5, 5, &[(2, 2)]);
    let next = step(&b, 5, 5);
    assert_eq!(next, vec![false; 25]);
}

#[test]
fn crowded_cell_dies_of_overpopulation() {
    // The center of a full 3x3 block has all 8 neighbors live.
    let b = board(
        5,
        5,
        &[
            (1, 1),
            (2, 1),
            (3, 1),
            (1, 2),
            (2, 2),
            (3, 2),
            (1, 3),
            (2, 3),
            (3, 3),
        ],
    );
    assert_eq!(count_live_neighbors(&b, 5, 5, 2, 2), 8);
    let next = step(&b, 5, 5);
    assert!(!next[2 * 5 + 2]);
}

#[test]
fn dead_cell_with_three_neighbors_is_born() {
    // An L-tromino: (2, 2) is dead with exactly 3 live neighbors.
    let b = board(5, 5, &[(1, 1), (2, 1), (1, 2)]);
    assert_eq!(count_live_neighbors(&b, 5, 5, 2, 2), 3);
    let next = step(&b, 5, 5);
    assert!(next[2 * 5 + 2]);
}

#[test]
fn dead_cell_with_two_neighbors_stays_dead() {
    let b = board(5, 5, &[(1, 1), (2, 1)]);
    assert_eq!(count_live_neighbors(&b, 5, 5, 2, 2), 2);
    let next = step(&b, 5, 5);
    assert!(!next[2 * 5 + 2]);
}

#[test]
fn dead_cell_with_four_neighbors_stays_dead() {
    let b = board(5, 5, &[(1, 1), (2, 1), (3, 1), (1, 2)]);
    assert_eq!(count_live_neighbors(&b, 5, 5, 2, 2), 4);
    let next = step(&b, 5, 5);
    assert!(!next[2 * 5 + 2]);
}

#[test]
fn corner_counts_wrapped_diagonal_neighbor() {
    // Only the far corner is live: the origin sees it as its one diagonal
    // neighbor through both wrapped edges.
    let b = board(4, 4, &[(3, 3)]);
    assert_eq!(count_live_neighbors(&b, 4, 4, 0, 0), 1);

    let c = board(7, 3, &[(6, 2)]);
    assert_eq!(count_live_neighbors(&c, 7, 3, 0, 0), 1);
}

#[test]
fn wrapped_row_and_column_neighbors_are_counted() {
    // Live cells at the three wrap-around neighbors of the origin: same row
    // far left, same column far top, and the far corner.
    let b = board(5, 4, &[(4, 0), (0, 3), (4, 3)]);
    assert_eq!(count_live_neighbors(&b, 5, 4, 0, 0), 3);
}

#[test]
fn block_returns_after_five_generations() {
    let start = board(4, 4, &[(1, 1), (2, 1), (1, 2), (2, 2)]);
    let mut current = start.clone();
    for _ in 0..5 {
        current = step(&current, 4, 4);
    }
    assert_eq!(current, start);
}
