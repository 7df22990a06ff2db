//! Window sums computed on a pool of worker threads.

use rayon::iter::{IndexedParallelIterator, ParallelIterator};
use rayon::slice::ParallelSlice;
use vstd::prelude::*;

use crate::group::{values_of, Group};
use crate::sums::{base_values, window_sum, window_values};

verus! {

/// Computes the window sums on rayon's thread pool: `par_chunks` cuts the bits
/// into chunks of `width`, `zip` pairs chunk `i` with window `i` and drops
/// what has no partner, `map` applies [`window_sum`] to every pair, and
/// `collect` gathers the results in the order of the pairs.
///
/// The contract is the one [`crate::sums::window_sums`] proves of its loop. It
/// is assumed here: it rests on rayon keeping the order of an indexed
/// iterator, and on `window_sum` being applied to each pair exactly once.
/// `par_chunks` panics on a width of zero, which the precondition rules out.
#[verifier::external_body]
pub(crate) fn par_window_sums<G: Group + Send + Sync>(
    bits: &[bool],
    width: usize,
    bases: &Vec<Vec<G>>,
) -> (sums: Vec<G>)
    requires
        width > 0,
    ensures
        values_of(sums@) == window_values::<G>(bits@, width as nat, base_values(bases@)),
{
    bits.par_chunks(width).zip(bases).map(|(chunk, window)| window_sum(chunk, window)).collect()
}

} // verus!
