//! The bases of a hash instance.

use rand::rngs::StdRng;
use vstd::prelude::*;

use crate::error::ConstraintFieldError;
use crate::field::ToConstraintField;
use crate::group::Group;
use crate::size::PedersenSize;

verus! {

/// The bases of a hash instance, window by window, with the geometry they
/// were made for.
#[derive(Clone, Debug, PartialEq, Eq, PartialOrd, Ord)]
pub struct PedersenCRHParameters<G: Group> {
    pub bases: Vec<Vec<G>>,
    pub size: PedersenSize,
}

impl<G: Group> PedersenCRHParameters<G> {
    /// Whether there is one window of bases per window of the geometry, each
    /// holding one base per bit.
    pub open spec fn well_shaped(&self) -> bool {
        &&& self.bases@.len() == self.size.spec_num_windows()
        &&& forall|i: int|
            0 <= i < self.bases@.len() ==> (#[trigger] self.bases@[i])@.len()
                == self.size.spec_window_size()
    }

    /// Samples one base per bit of every window from the randomness source.
    pub fn setup(rng: &mut StdRng, size: PedersenSize) -> (parameters: Self)
        ensures
            parameters.size == size,
            parameters.well_shaped(),
    {
        let window_size: usize = size.window_size();
        let num_windows: usize = size.num_windows();
        let mut bases: Vec<Vec<G>> = Vec::new();
        let mut i: usize = 0;
        while i < num_windows
            invariant
                i <= num_windows,
                bases@.len() == i,
                forall|k: int| 0 <= k < i ==> (#[trigger] bases@[k])@.len() == window_size,
            decreases num_windows - i,
        {
            let mut window: Vec<G> = Vec::new();
            let mut j: usize = 0;
            while j < window_size
                invariant
                    j <= window_size,
                    window@.len() == j,
                decreases window_size - j,
            {
                window.push(G::sample(rng));
                j = j + 1;
            }
            bases.push(window);
            i = i + 1;
        }
        PedersenCRHParameters { bases, size }
    }
}

/// The parameters project onto the projections of their bases, window by
/// window and base by base.
impl<F, G: Group + ToConstraintField<F>> ToConstraintField<F> for PedersenCRHParameters<G> {
    open spec fn field_elements(&self) -> Result<Seq<F>, ConstraintFieldError> {
        self.bases.field_elements()
    }

    fn to_field_elements(&self) -> (r: Result<Vec<F>, ConstraintFieldError>) {
        self.bases.to_field_elements()
    }
}

} // verus!
