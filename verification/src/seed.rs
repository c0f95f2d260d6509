//! Random initial seeding: each cell of a fresh board is drawn
//! independently, live with a fixed probability, from an injected random
//! source.

use vstd::prelude::*;

verus! {

#[verifier::external_type_specification]
#[verifier::external_body]
pub struct ExThreadRng(rand::rngs::ThreadRng);

/// Relies on `rand::RngExt::random_ratio`: a Bernoulli draw that is true
/// with probability `num / den`, guaranteed true when `num == den` and
/// false when `num == 0`; it panics when `den == 0` or `num > den`.
#[verifier::external_body]
fn sample_ratio(rng: &mut rand::rngs::ThreadRng, num: u32, den: u32) -> (live: bool)
    requires
        0 < den,
        num <= den,
    ensures
        num == den ==> live,
        num == 0 ==> !live,
{
    rand::RngExt::random_ratio(rng, num, den)
}

/// Builds a fresh `w` by `h` board, sampling each cell independently from
/// `rng`: live with probability `num / den`. With `num == 0` every cell is
/// dead; with `num == den` every cell is live.
pub fn random_board(rng: &mut rand::rngs::ThreadRng, w: usize, h: usize, num: u32, den: u32) -> (board: Vec<bool>)
    requires
        0 < den,
        num <= den,
        w * h <= usize::MAX,
    ensures
        board@.len() == w * h,
        num == den ==> board@ == Seq::new((w * h) as nat, |i: int| true),
        num == 0 ==> board@ == Seq::new((w * h) as nat, |i: int| false),
{
    let total = w * h;
    let mut board: Vec<bool> = Vec::new();
    let mut i: usize = 0;
    while i < total
        invariant
            0 < den,
            num <= den,
            i <= total,
            total == w * h,
            board@.len() == i,
            forall|j: int| 0 <= j < board@.len() && num == den ==> board@[j],
            forall|j: int| 0 <= j < board@.len() && num == 0 ==> !board@[j],
        decreases total - i,
    {
        let live = sample_ratio(rng, num, den);
        board.push(live);
        i = i + 1;
    }
    proof {
        if num == den {
            assert(board@ =~= Seq::new((w * h) as nat, |i: int| true));
        }
        if num == 0 {
            assert(board@ =~= Seq::new((w * h) as nat, |i: int| false));
        }
    }
    board
}

} // verus!
