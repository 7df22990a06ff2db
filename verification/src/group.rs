//! The group capability the hash is built on: an identity, a commutative and
//! associative addition, equality, and random sampling.

use rand::rngs::StdRng;
use vstd::prelude::*;

use crate::random::random_word;

verus! {

/// A commutative group written additively. Of its structure the hash uses
/// the identity and the addition; inverses are not asked for.
///
/// Every element stands for a mathematical `Value`; the operations are
/// specified on values, and the algebraic laws are proof obligations of each
/// implementation.
///
/// An implementation that is not verified gives the specification and proof
/// functions any body: they are never run. What is proved of the hash then
/// holds of it as far as its operations keep the contracts stated here.
pub trait Group: Sized {
    /// The mathematical value an element stands for.
    type Value;

    /// The value this element stands for.
    spec fn value(&self) -> Self::Value;

    /// The identity of the group.
    spec fn zero_value() -> Self::Value;

    /// The group law.
    spec fn add_values(a: Self::Value, b: Self::Value) -> Self::Value;

    /// The group law is commutative.
    proof fn lemma_add_commutative(a: Self::Value, b: Self::Value)
        ensures
            Self::add_values(a, b) == Self::add_values(b, a),
    ;

    /// The group law is associative.
    proof fn lemma_add_associative(a: Self::Value, b: Self::Value, c: Self::Value)
        ensures
            Self::add_values(Self::add_values(a, b), c) == Self::add_values(
                a,
                Self::add_values(b, c),
            ),
    ;

    /// Adding the identity changes nothing.
    proof fn lemma_add_zero(a: Self::Value)
        ensures
            Self::add_values(a, Self::zero_value()) == a,
    ;

    /// The identity element.
    fn zero() -> (r: Self)
        ensures
            r.value() == Self::zero_value(),
    ;

    /// The sum of two elements.
    fn add(&self, other: &Self) -> (r: Self)
        ensures
            r.value() == Self::add_values(self.value(), other.value()),
    ;

    /// Whether two elements stand for the same value.
    fn equals(&self, other: &Self) -> (same: bool)
        ensures
            same == (self.value() == other.value()),
    ;

    /// Samples an element from the randomness source.
    fn sample(rng: &mut StdRng) -> Self;
}

/// The values a sequence of elements stands for, in order.
pub open spec fn values_of<G: Group>(elements: Seq<G>) -> Seq<G::Value> {
    elements.map_values(|g: G| g.value())
}

/// The integers modulo 2^64 under addition: a small reference group.
#[derive(Clone, Copy, Debug, PartialEq, Eq, PartialOrd, Ord, Hash)]
pub struct WordGroup {
    pub word: u64,
}

impl Group for WordGroup {
    type Value = u64;

    open spec fn value(&self) -> u64 {
        self.word
    }

    open spec fn zero_value() -> u64 {
        0
    }

    open spec fn add_values(a: u64, b: u64) -> u64 {
        ((a + b) % 0x1_0000_0000_0000_0000) as u64
    }

    proof fn lemma_add_commutative(a: u64, b: u64) {
    }

    proof fn lemma_add_associative(a: u64, b: u64, c: u64) {
    }

    proof fn lemma_add_zero(a: u64) {
    }

    fn zero() -> (r: Self) {
        WordGroup { word: 0 }
    }

    fn add(&self, other: &Self) -> (r: Self) {
        WordGroup { word: self.word.wrapping_add(other.word) }
    }

    fn equals(&self, other: &Self) -> (same: bool) {
        self.word == other.word
    }

    fn sample(rng: &mut StdRng) -> Self {
        WordGroup { word: random_word(rng) }
    }
}

} // verus!
