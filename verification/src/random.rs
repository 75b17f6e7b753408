//! The random draws of the game, made by the `rand` crate.
//!
//! Nothing in this file is proved. Each contract states what the source of
//! `rand` shows of the function that the body calls, and leaves open
//! whatever depends on the state of the generator.

use crate::colour::FigureColour;
use crate::feedback::HitColour;
use rand::rngs::StdRng;
use rand::seq::SliceRandom;
use vstd::prelude::*;

verus! {

/// `rand::rngs::StdRng`, the generator that the draws consume.
///
/// Its state is hidden: no contract says which of the possible outcomes a
/// draw yields, nor how a draw changes the generator.
#[verifier::external_type_specification]
#[verifier::external_body]
pub struct ExStdRng(rand::rngs::StdRng);

/// `chosen` holds the entries of `pool` at the positions `picks`, and no
/// position is picked twice.
pub open spec fn is_selection(
    picks: Seq<int>,
    pool: Seq<FigureColour>,
    chosen: Seq<FigureColour>,
) -> bool {
    &&& picks.len() == chosen.len()
    &&& picks.no_duplicates()
    &&& forall|k: int|
        0 <= k < picks.len() ==> 0 <= #[trigger] picks[k] < pool.len() && chosen[k]
            == pool[picks[k]]
}

/// Calls `rand::seq::SliceRandom::choose_multiple` on `pool` and collects
/// what its iterator yields.
///
/// Claimed of it: it yields `amount` entries of `pool`, or all of them if
/// `pool` has fewer, each taken from a different position of `pool`. Which
/// positions, and in which order, is left open. Pools of more than
/// `u32::MAX` entries, for which `rand` samples in another way, are left
/// out.
#[verifier::external_body]
pub(crate) fn choose_multiple(
    pool: &[FigureColour],
    rng: &mut StdRng,
    amount: usize,
) -> (chosen: Vec<FigureColour>)
    requires
        pool@.len() <= u32::MAX,
    ensures
        chosen@.len() == if amount <= pool@.len() {
            amount as nat
        } else {
            pool@.len()
        },
        exists|picks: Seq<int>| is_selection(picks, pool@, chosen@),
{
    pool.choose_multiple(rng, amount).copied().collect()
}

/// Calls `rand::seq::SliceRandom::shuffle` on the four markers.
///
/// Claimed of it: it only swaps entries, so the markers after the call are
/// those before it, each as often as before. Their order is left open.
#[verifier::external_body]
pub(crate) fn shuffle(hits: &mut [HitColour; 4], rng: &mut StdRng)
    ensures
        final(hits)@.to_multiset() == old(hits)@.to_multiset(),
{
    hits.shuffle(rng);
}

} // verus!
