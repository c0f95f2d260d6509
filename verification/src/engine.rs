//! The generation engine: toroidal neighbor arithmetic, the cell-transition
//! rule, and the step function that maps one board to the next.

use vstd::prelude::*;
use vstd::arithmetic::div_mod::lemma_fundamental_div_mod_converse;

verus! {

/// Row-major index of the cell at column `x`, row `y` on a board of width `w`.
pub open spec fn spec_idx(w: int, x: int, y: int) -> int {
    y * w + x
}

/// The coordinate one step toward zero, wrapping to `n - 1` at the edge.
pub open spec fn wrap_dec(i: int, n: int) -> int {
    if i == 0 {
        n - 1
    } else {
        i - 1
    }
}

/// The coordinate one step away from zero, wrapping to `0` at the edge.
pub open spec fn wrap_inc(i: int, n: int) -> int {
    if i + 1 == n {
        0
    } else {
        i + 1
    }
}

/// Whether the cell at column `x`, row `y` of board `b` (width `w`) is live.
pub open spec fn cell_at(b: Seq<bool>, w: int, x: int, y: int) -> bool {
    b[spec_idx(w, x, y)]
}

/// A boolean counted as 0 or 1.
pub open spec fn count_one(b: bool) -> int {
    if b {
        1
    } else {
        0
    }
}

/// The number of live cells among the 8 Moore neighbors of `(x, y)` on a
/// `w` by `h` toroidal board, in the range 0 to 8.
pub open spec fn live_neighbors(b: Seq<bool>, w: int, h: int, x: int, y: int) -> int {
    let l = wrap_dec(x, w);
    let r = wrap_inc(x, w);
    let u = wrap_dec(y, h);
    let d = wrap_inc(y, h);
    count_one(cell_at(b, w, l, u)) + count_one(cell_at(b, w, x, u)) + count_one(
        cell_at(b, w, r, u),
    ) + count_one(cell_at(b, w, l, y)) + count_one(cell_at(b, w, r, y)) + count_one(
        cell_at(b, w, l, d),
    ) + count_one(cell_at(b, w, x, d)) + count_one(cell_at(b, w, r, d))
}

/// The classic transition rule, applied to the old value of the cell at
/// `(x, y)`: a live cell survives with 2 or 3 live neighbors and otherwise
/// dies; a dead cell becomes live exactly with 3 live neighbors.
pub open spec fn next_cell(b: Seq<bool>, w: int, h: int, x: int, y: int) -> bool {
    let n = live_neighbors(b, w, h, x, y);
    if cell_at(b, w, x, y) {
        2 <= n <= 3
    } else {
        n == 3
    }
}

/// The next generation of board `b` on a `w` by `h` toroidal grid: the
/// transition rule applied to every cell independently, reading only `b`.
pub open spec fn spec_step(b: Seq<bool>, w: int, h: int) -> Seq<bool> {
    Seq::new((w * h) as nat, |i: int| next_cell(b, w, h, i % w, i / w))
}

/// A row-major index built from in-range coordinates lies within the board.
pub proof fn lemma_idx_in_range(w: int, h: int, x: int, y: int)
    by (nonlinear_arith)
    requires
        0 <= x < w,
        0 <= y < h,
    ensures
        0 <= spec_idx(w, x, y) < w * h,
{
}

/// A row-major index decomposes back into its coordinates.
pub proof fn lemma_idx_coords(w: int, x: int, y: int)
    requires
        0 < w,
        0 <= x < w,
        0 <= y,
    ensures
        spec_idx(w, x, y) % w == x,
        spec_idx(w, x, y) / w == y,
{
    lemma_fundamental_div_mod_converse(y * w + x, w, y, x);
}

/// Every position on the board has in-range coordinates.
pub proof fn lemma_coords_in_range(w: int, h: int, i: int)
    by (nonlinear_arith)
    requires
        0 < w,
        0 < h,
        0 <= i < w * h,
    ensures
        0 <= i % w < w,
        0 <= i / w < h,
        i == spec_idx(w, i % w, i / w),
{
}

/// Row-major index of the cell at column `x`, row `y` on a board of width `w`.
pub fn idx(x: usize, y: usize, w: usize) -> (i: usize)
    requires
        spec_idx(w as int, x as int, y as int) <= usize::MAX,
    ensures
        i == spec_idx(w as int, x as int, y as int),
{
    (y * w) + x
}

/// The coordinate one step toward zero, wrapping to `n - 1` at the edge.
fn wrap_down(i: usize, n: usize) -> (r: usize)
    requires
        0 < n,
        i < n,
    ensures
        r == wrap_dec(i as int, n as int),
        r < n,
{
    if i == 0 {
        n - 1
    } else {
        i - 1
    }
}

/// The coordinate one step away from zero, wrapping to `0` at the edge.
fn wrap_up(i: usize, n: usize) -> (r: usize)
    requires
        0 < n,
        i < n,
    ensures
        r == wrap_inc(i as int, n as int),
        r < n,
{
    if i + 1 == n {
        0
    } else {
        i + 1
    }
}

/// A boolean counted as 0 or 1.
fn one_if(b: bool) -> (r: u8)
    ensures
        r == count_one(b),
{
    if b {
        1
    } else {
        0
    }
}

/// Counts the live cells among the 8 toroidal neighbors of `(x, y)`.
pub fn count_live_neighbors(board: &Vec<bool>, w: usize, h: usize, x: usize, y: usize) -> (n: u8)
    requires
        0 < w,
        0 < h,
        x < w,
        y < h,
        board@.len() == w * h,
    ensures
        n == live_neighbors(board@, w as int, h as int, x as int, y as int),
        n <= 8,
{
    let l = wrap_down(x, w);
    let r = wrap_up(x, w);
    let u = wrap_down(y, h);
    let d = wrap_up(y, h);
    proof {
        assert(board.len() == board@.len());
        lemma_idx_in_range(w as int, h as int, l as int, u as int);
        lemma_idx_in_range(w as int, h as int, x as int, u as int);
        lemma_idx_in_range(w as int, h as int, r as int, u as int);
        lemma_idx_in_range(w as int, h as int, l as int, y as int);
        lemma_idx_in_range(w as int, h as int, r as int, y as int);
        lemma_idx_in_range(w as int, h as int, l as int, d as int);
        lemma_idx_in_range(w as int, h as int, x as int, d as int);
        lemma_idx_in_range(w as int, h as int, r as int, d as int);
    }
    let n0 = one_if(board[idx(l, u, w)]);
    let n1 = one_if(board[idx(x, u, w)]);
    let n2 = one_if(board[idx(r, u, w)]);
    let n3 = one_if(board[idx(l, y, w)]);
    let n4 = one_if(board[idx(r, y, w)]);
    let n5 = one_if(board[idx(l, d, w)]);
    let n6 = one_if(board[idx(x, d, w)]);
    let n7 = one_if(board[idx(r, d, w)]);
    n0 + n1 + n2 + n3 + n4 + n5 + n6 + n7
}

/// Computes the next generation of `board` on a `w` by `h` toroidal grid.
///
/// The input board is only read; the result is a fresh board of the same
/// length holding the transition rule's output for every cell.
pub fn step(board: &Vec<bool>, w: usize, h: usize) -> (new_board: Vec<bool>)
    requires
        0 < w,
        0 < h,
        board@.len() == w * h,
    ensures
        new_board@ == spec_step(board@, w as int, h as int),
        new_board@.len() == board@.len(),
{
    let ghost bs = board@;
    let ghost wi = w as int;
    let ghost hi = h as int;
    let mut out: Vec<bool> = Vec::new();
    let mut y: usize = 0;
    while y < h
        invariant
            0 < w,
            0 < h,
            y <= h,
            board@ == bs,
            bs.len() == wi * hi,
            wi == w as int,
            hi == h as int,
            out@.len() == y * wi,
            forall|j: int|
                0 <= j < out@.len() ==> out@[j] == next_cell(bs, wi, hi, j % wi, j / wi),
        decreases h - y,
    {
        let mut x: usize = 0;
        while x < w
            invariant
                0 < w,
                0 < h,
                y < h,
                x <= w,
                board@ == bs,
                bs.len() == wi * hi,
                wi == w as int,
                hi == h as int,
                out@.len() == y * wi + x,
                forall|j: int|
                    0 <= j < out@.len() ==> out@[j] == next_cell(bs, wi, hi, j % wi, j / wi),
            decreases w - x,
        {
            proof {
                assert(board.len() == board@.len());
                lemma_idx_in_range(wi, hi, x as int, y as int);
                lemma_idx_coords(wi, x as int, y as int);
            }
            let n = count_live_neighbors(board, w, h, x, y);
            let here = board[idx(x, y, w)];
            let next = if here {
                2 <= n && n <= 3
            } else {
                n == 3
            };
            assert(next == next_cell(bs, wi, hi, x as int, y as int));
            out.push(next);
            x = x + 1;
        }
        proof {
            assert((y + 1) * wi == y * wi + wi) by (nonlinear_arith);
        }
        y = y + 1;
    }
    proof {
        assert(hi * wi == wi * hi) by (nonlinear_arith);
        assert forall|j: int| 0 <= j < out@.len() implies out@[j] == spec_step(bs, wi, hi)[j] by {
            lemma_coords_in_range(wi, hi, j);
        }
        assert(out@ =~= spec_step(bs, wi, hi));
    }
    out
}

} // verus!
