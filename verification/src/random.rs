//! Random draws, from the thread-local generator of `rand`.
use vstd::prelude::*;

use rand::seq::SliceRandom;
use rand::Rng;

verus! {

/// `idx` lists distinct positions of `items`, and `r` holds the items at them.
pub open spec fn picked_from(r: Seq<usize>, items: Seq<usize>, idx: Seq<int>) -> bool {
    &&& idx.len() == r.len()
    &&& idx.no_duplicates()
    &&& forall|j: int| 0 <= j < idx.len() ==> 0 <= #[trigger] idx[j] < items.len()
    &&& forall|j: int| 0 <= j < idx.len() ==> r[j] == items[#[trigger] idx[j]]
}

/// `rand::Rng::gen_range` on `rand::thread_rng()`: a number drawn from
/// `low..high`. The crate panics on an empty range, hence the `requires`.
/// Which number comes is left open.
#[verifier::external_body]
pub(crate) fn random_in_range(low: usize, high: usize) -> (r: usize)
    requires
        low < high,
    ensures
        low <= r < high,
{
    rand::thread_rng().gen_range(low..high)
}

/// `rand::Rng::gen` on `rand::thread_rng()` for a `u32`: any `u32` may come.
#[verifier::external_body]
pub(crate) fn random_u32() -> u32 {
    rand::thread_rng().gen()
}

/// `rand::seq::SliceRandom::choose_multiple` on `rand::thread_rng()`, the chosen
/// items copied out. Its documentation: it chooses `amount` elements (all of them
/// when the slice is shorter) at random, without repetition, in random order;
/// the crate draws distinct positions with `index::sample`. So the result holds
/// the items at `min(amount, len)` distinct positions. Which positions, and in
/// what order, is left open.
#[verifier::external_body]
pub(crate) fn choose_multiple(items: &[usize], amount: usize) -> (r: Vec<usize>)
    ensures
        r@.len() == if amount <= items@.len() {
            amount as int
        } else {
            items@.len() as int
        },
        exists|idx: Seq<int>| picked_from(r@, items@, idx),
{
    items.choose_multiple(&mut rand::thread_rng(), amount).cloned().collect()
}

} // verus!
