//! The randomness source used to sample group elements.

use rand::rngs::StdRng;
use rand::Rng;
use vstd::prelude::*;

verus! {

#[verifier::external_type_specification]
#[verifier::external_body]
pub struct ExStdRng(StdRng);

/// Draws the next 64-bit word from the generator by `rand::Rng::gen`.
///
/// Nothing is claimed about the word: it depends on the generator's hidden
/// state, and two draws need not agree.
#[verifier::external_body]
pub(crate) fn random_word(rng: &mut StdRng) -> (word: u64) {
    rng.gen()
}

} // verus!
