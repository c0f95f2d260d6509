//! Rendering a board as text: one line per row, one glyph per cell, a
//! filled block for a live cell and a light shade for a dead one.

use vstd::prelude::*;
use crate::engine::{cell_at, lemma_idx_in_range, lemma_idx_coords};

verus! {

/// The glyph for one cell: a filled block when live, a light shade when dead.
pub open spec fn glyph(live: bool) -> char {
    if live {
        '\u{2588}'
    } else {
        '\u{2591}'
    }
}

/// The text form of board `b` on a `w` by `h` grid: `h` lines, each holding
/// the `w` glyphs of one row followed by a newline.
pub open spec fn spec_render(b: Seq<bool>, w: int, h: int) -> Seq<char> {
    Seq::new(
        ((w + 1) * h) as nat,
        |j: int|
            if j % (w + 1) == w {
                '\n'
            } else {
                glyph(cell_at(b, w, j % (w + 1), j / (w + 1)))
            },
    )
}

/// Relies on `String`'s `FromIterator<char>`: collecting characters yields
/// the string holding exactly those characters in order.
#[verifier::external_body]
fn chars_to_string(v: Vec<char>) -> (r: String)
    ensures
        r@ == v@,
{
    String::from_iter(v)
}

/// Renders `board` as `h` newline-terminated lines of `w` glyphs each.
pub fn render(board: &Vec<bool>, w: usize, h: usize) -> (r: String)
    requires
        0 < w,
        0 < h,
        board@.len() == w * h,
    ensures
        r@ == spec_render(board@, w as int, h as int),
{
    let ghost bs = board@;
    let ghost wi = w as int;
    let ghost hi = h as int;
    let mut out: Vec<char> = Vec::new();
    let mut y: usize = 0;
    while y < h
        invariant
            0 < w,
            0 < h,
            y <= h,
            board@ == bs,
            bs.len() == wi * hi,
            wi == w as int,
            hi == h as int,
            out@.len() == y * (wi + 1),
            forall|j: int|
                0 <= j < out@.len() ==> out@[j] == spec_render(bs, wi, hi)[j],
        decreases h - y,
    {
        let mut x: usize = 0;
        while x < w
            invariant
                0 < w,
                0 < h,
                y < h,
                x <= w,
                board@ == bs,
                bs.len() == wi * hi,
                wi == w as int,
                hi == h as int,
                out@.len() == y * (wi + 1) + x,
                forall|j: int|
                    0 <= j < out@.len() ==> out@[j] == spec_render(bs, wi, hi)[j],
            decreases w - x,
        {
            proof {
                assert(board.len() == board@.len());
                lemma_idx_in_range(wi, hi, x as int, y as int);
                lemma_idx_in_range(wi + 1, hi, x as int, y as int);
                lemma_idx_coords(wi + 1, x as int, y as int);
            }
            let live = board[crate::engine::idx(x, y, w)];
            let g = if live {
                '\u{2588}'
            } else {
                '\u{2591}'
            };
            assert(g == spec_render(bs, wi, hi)[y * (wi + 1) + x]);
            out.push(g);
            x = x + 1;
        }
        proof {
            lemma_idx_in_range(wi + 1, hi, wi, y as int);
            lemma_idx_coords(wi + 1, wi, y as int);
            assert(spec_render(bs, wi, hi)[y * (wi + 1) + wi] == '\n');
        }
        out.push('\n');
        proof {
            assert((y + 1) * (wi + 1) == y * (wi + 1) + wi + 1) by (nonlinear_arith);
        }
        y = y + 1;
    }
    proof {
        assert(hi * (wi + 1) == (wi + 1) * hi) by (nonlinear_arith);
        assert(out@ =~= spec_render(bs, wi, hi));
    }
    chars_to_string(out)
}

} // verus!
