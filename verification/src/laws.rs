//! Laws of the transition rule: the rule-table bands, toroidal adjacency,
//! and the behaviour of two canonical patterns (the 2x2 block still life and
//! the 3-cell blinker) on grids of any sufficient size.

use vstd::prelude::*;
use crate::engine::{
    wrap_dec, wrap_inc, cell_at, count_one, live_neighbors, next_cell, spec_step,
    lemma_idx_in_range, lemma_idx_coords, lemma_coords_in_range,
};

verus! {

/// A live cell with fewer than two live neighbors dies, as if by
/// underpopulation.
pub proof fn lemma_underpopulation(b: Seq<bool>, w: int, h: int, x: int, y: int)
    requires
        cell_at(b, w, x, y),
        live_neighbors(b, w, h, x, y) < 2,
    ensures
        !next_cell(b, w, h, x, y),
{
}

/// A live cell with two or three live neighbors lives on to the next
/// generation.
pub proof fn lemma_survival(b: Seq<bool>, w: int, h: int, x: int, y: int)
    requires
        cell_at(b, w, x, y),
        2 <= live_neighbors(b, w, h, x, y) <= 3,
    ensures
        next_cell(b, w, h, x, y),
{
}

/// A live cell with more than three live neighbors dies, as if by
/// overpopulation.
pub proof fn lemma_overpopulation(b: Seq<bool>, w: int, h: int, x: int, y: int)
    requires
        cell_at(b, w, x, y),
        live_neighbors(b, w, h, x, y) > 3,
    ensures
        !next_cell(b, w, h, x, y),
{
}

/// A dead cell with exactly three live neighbors becomes live, as if by
/// reproduction.
pub proof fn lemma_reproduction(b: Seq<bool>, w: int, h: int, x: int, y: int)
    requires
        !cell_at(b, w, x, y),
        live_neighbors(b, w, h, x, y) == 3,
    ensures
        next_cell(b, w, h, x, y),
{
}

/// A dead cell with any number of live neighbors other than three stays
/// dead.
pub proof fn lemma_dead_stays_dead(b: Seq<bool>, w: int, h: int, x: int, y: int)
    requires
        !cell_at(b, w, x, y),
        live_neighbors(b, w, h, x, y) != 3,
    ensures
        !next_cell(b, w, h, x, y),
{
}

/// The step of a board is determined by the board and its dimensions alone:
/// equal inputs give equal outputs.
pub proof fn lemma_step_deterministic(a: Seq<bool>, b: Seq<bool>, w: int, h: int)
    requires
        a == b,
    ensures
        spec_step(a, w, h) == spec_step(b, w, h),
{
}

/// The next generation has exactly as many cells as a well-formed current
/// one: `w * h`.
pub proof fn lemma_step_len(b: Seq<bool>, w: int, h: int)
    requires
        0 < w,
        0 < h,
    ensures
        spec_step(b, w, h).len() == w * h,
{
    assert(0 <= w * h) by (nonlinear_arith)
        requires
            0 < w && 0 < h,
    ;
}

/// The `w` by `h` board whose live cells are exactly those where `f` holds
/// of the cell's column and row.
pub open spec fn pattern_board(f: spec_fn(int, int) -> bool, w: int, h: int) -> Seq<bool> {
    Seq::new((w * h) as nat, |i: int| f(i % w, i / w))
}

/// Reading a pattern board at in-range coordinates gives the pattern itself.
pub proof fn lemma_pattern_at(f: spec_fn(int, int) -> bool, w: int, h: int, x: int, y: int)
    requires
        0 < w,
        0 < h,
        0 <= x < w,
        0 <= y < h,
    ensures
        cell_at(pattern_board(f, w, h), w, x, y) == f(x, y),
{
    lemma_idx_in_range(w, h, x, y);
    lemma_idx_coords(w, x, y);
}

/// The live-neighbor count on a pattern board, written over the pattern.
pub open spec fn pattern_neighbors(f: spec_fn(int, int) -> bool, w: int, h: int, x: int, y: int) -> int {
    let l = wrap_dec(x, w);
    let r = wrap_inc(x, w);
    let u = wrap_dec(y, h);
    let d = wrap_inc(y, h);
    count_one(f(l, u)) + count_one(f(x, u)) + count_one(f(r, u)) + count_one(f(l, y)) + count_one(
        f(r, y),
    ) + count_one(f(l, d)) + count_one(f(x, d)) + count_one(f(r, d))
}

/// On a pattern board, the live-neighbor count and the cell itself reduce to
/// the pattern.
pub proof fn lemma_pattern_neighbors(f: spec_fn(int, int) -> bool, w: int, h: int, x: int, y: int)
    requires
        0 < w,
        0 < h,
        0 <= x < w,
        0 <= y < h,
    ensures
        live_neighbors(pattern_board(f, w, h), w, h, x, y) == pattern_neighbors(f, w, h, x, y),
        cell_at(pattern_board(f, w, h), w, x, y) == f(x, y),
{
    let l = wrap_dec(x, w);
    let r = wrap_inc(x, w);
    let u = wrap_dec(y, h);
    let d = wrap_inc(y, h);
    lemma_pattern_at(f, w, h, x, y);
    lemma_pattern_at(f, w, h, l, u);
    lemma_pattern_at(f, w, h, x, u);
    lemma_pattern_at(f, w, h, r, u);
    lemma_pattern_at(f, w, h, l, y);
    lemma_pattern_at(f, w, h, r, y);
    lemma_pattern_at(f, w, h, l, d);
    lemma_pattern_at(f, w, h, x, d);
    lemma_pattern_at(f, w, h, r, d);
}

/// One step maps a pattern board to another pattern board, provided the
/// target pattern matches the transition rule applied to the source pattern
/// at every in-range cell.
pub proof fn lemma_step_pattern(
    f: spec_fn(int, int) -> bool,
    g: spec_fn(int, int) -> bool,
    w: int,
    h: int,
)
    requires
        0 < w,
        0 < h,
        forall|x: int, y: int|
            0 <= x < w && 0 <= y < h ==> g(x, y) == {
                let n = #[trigger] pattern_neighbors(f, w, h, x, y);
                if f(x, y) {
                    2 <= n <= 3
                } else {
                    n == 3
                }
            },
    ensures
        spec_step(pattern_board(f, w, h), w, h) == pattern_board(g, w, h),
{
    let b = pattern_board(f, w, h);
    lemma_step_len(b, w, h);
    assert forall|i: int| 0 <= i < w * h implies spec_step(b, w, h)[i] == pattern_board(
        g,
        w,
        h,
    )[i] by {
        lemma_coords_in_range(w, h, i);
        let x = i % w;
        let y = i / w;
        lemma_pattern_neighbors(f, w, h, x, y);
        assert(spec_step(b, w, h)[i] == next_cell(b, w, h, x, y));
        assert(pattern_board(g, w, h)[i] == g(x, y));
    }
    assert(spec_step(b, w, h) =~= pattern_board(g, w, h));
}

/// Whether `(x, y)` lies in the 2x2 block of live cells at columns and rows
/// 1 and 2.
pub open spec fn block_cell(x: int, y: int) -> bool {
    (x == 1 || x == 2) && (y == 1 || y == 2)
}

/// The `w` by `h` board holding the 2x2 block and nothing else.
pub open spec fn block_board(w: int, h: int) -> Seq<bool> {
    pattern_board(|x: int, y: int| block_cell(x, y), w, h)
}

/// The 2x2 block is a still life: on any toroidal grid at least 4 wide and
/// 4 high it maps to itself under one step.
pub proof fn lemma_block_still_life(w: int, h: int)
    requires
        4 <= w,
        4 <= h,
    ensures
        spec_step(block_board(w, h), w, h) == block_board(w, h),
{
    let f = |x: int, y: int| block_cell(x, y);
    assert forall|x: int, y: int| 0 <= x < w && 0 <= y < h implies f(x, y) == {
        let n = #[trigger] pattern_neighbors(f, w, h, x, y);
        if f(x, y) {
            2 <= n <= 3
        } else {
            n == 3
        }
    } by {
        assert(pattern_neighbors(f, w, h, x, y) >= 0);
    }
    lemma_step_pattern(f, f, w, h);
}

/// Whether `(x, y)` lies on the horizontal blinker: the 3-cell line at
/// columns 1 to 3 of row 2.
pub open spec fn blinker_h_cell(x: int, y: int) -> bool {
    y == 2 && 1 <= x <= 3
}

/// Whether `(x, y)` lies on the vertical blinker: the 3-cell line at rows
/// 1 to 3 of column 2.
pub open spec fn blinker_v_cell(x: int, y: int) -> bool {
    x == 2 && 1 <= y <= 3
}

/// The `w` by `h` board holding the horizontal blinker and nothing else.
pub open spec fn blinker_h_board(w: int, h: int) -> Seq<bool> {
    pattern_board(|x: int, y: int| blinker_h_cell(x, y), w, h)
}

/// The `w` by `h` board holding the vertical blinker and nothing else.
pub open spec fn blinker_v_board(w: int, h: int) -> Seq<bool> {
    pattern_board(|x: int, y: int| blinker_v_cell(x, y), w, h)
}

/// One step turns the horizontal blinker into the vertical one on any
/// toroidal grid at least 5 wide and 5 high.
pub proof fn lemma_blinker_h_to_v(w: int, h: int)
    requires
        5 <= w,
        5 <= h,
    ensures
        spec_step(blinker_h_board(w, h), w, h) == blinker_v_board(w, h),
{
    let f = |x: int, y: int| blinker_h_cell(x, y);
    let g = |x: int, y: int| blinker_v_cell(x, y);
    assert forall|x: int, y: int| 0 <= x < w && 0 <= y < h implies g(x, y) == {
        let n = #[trigger] pattern_neighbors(f, w, h, x, y);
        if f(x, y) {
            2 <= n <= 3
        } else {
            n == 3
        }
    } by {
        assert(pattern_neighbors(f, w, h, x, y) >= 0);
    }
    lemma_step_pattern(f, g, w, h);
}

/// One step turns the vertical blinker back into the horizontal one on any
/// toroidal grid at least 5 wide and 5 high.
pub proof fn lemma_blinker_v_to_h(w: int, h: int)
    requires
        5 <= w,
        5 <= h,
    ensures
        spec_step(blinker_v_board(w, h), w, h) == blinker_h_board(w, h),
{
    let f = |x: int, y: int| blinker_v_cell(x, y);
    let g = |x: int, y: int| blinker_h_cell(x, y);
    assert forall|x: int, y: int| 0 <= x < w && 0 <= y < h implies g(x, y) == {
        let n = #[trigger] pattern_neighbors(f, w, h, x, y);
        if f(x, y) {
            2 <= n <= 3
        } else {
            n == 3
        }
    } by {
        assert(pattern_neighbors(f, w, h, x, y) >= 0);
    }
    lemma_step_pattern(f, g, w, h);
}

/// The blinker is a period-2 oscillator: two steps bring the horizontal
/// blinker back to itself on any toroidal grid at least 5 wide and 5 high.
pub proof fn lemma_blinker_period_two(w: int, h: int)
    requires
        5 <= w,
        5 <= h,
    ensures
        spec_step(spec_step(blinker_h_board(w, h), w, h), w, h) == blinker_h_board(w, h),
{
    lemma_blinker_h_to_v(w, h);
    lemma_blinker_v_to_h(w, h);
}

/// Whether `(x, y)` is the cell in the bottom-right corner of a `w` by `h`
/// board.
pub open spec fn far_corner_cell(w: int, h: int, x: int, y: int) -> bool {
    x == w - 1 && y == h - 1
}

/// The `w` by `h` board whose only live cell is the bottom-right corner.
pub open spec fn far_corner_board(w: int, h: int) -> Seq<bool> {
    pattern_board(|x: int, y: int| far_corner_cell(w, h, x, y), w, h)
}

/// Toroidal adjacency across both edges: on a board whose only live cell is
/// the bottom-right corner, the cell at the origin counts exactly one live
/// neighbor — the corner is diagonally adjacent to it by wraparound.
pub proof fn lemma_wraparound_corner(w: int, h: int)
    requires
        3 <= w,
        3 <= h,
    ensures
        live_neighbors(far_corner_board(w, h), w, h, 0, 0) == 1,
        !cell_at(far_corner_board(w, h), w, 0, 0),
{
    let f = |x: int, y: int| far_corner_cell(w, h, x, y);
    lemma_pattern_neighbors(f, w, h, 0, 0);
}

} // verus!
