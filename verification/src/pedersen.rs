//! The hash: a sum of the bases selected by the bits of the input.

use rand::rngs::StdRng;
use vstd::prelude::*;

use crate::bits::{bits_of, bytes_to_bits};
use crate::error::{CRHError, ConstraintFieldError};
use crate::field::ToConstraintField;
use crate::group::Group;
use crate::parallel::par_window_sums;
use crate::parameters::PedersenCRHParameters;
use crate::size::PedersenSize;
use crate::sums::{base_values, sum_all, total_value, window_sums};

verus! {

/// `input` followed by as many zero bytes as it takes to reach `len` bytes;
/// `input` itself where it is not shorter.
pub open spec fn padded(input: Seq<u8>, len: nat) -> Seq<u8> {
    if input.len() < len {
        input + Seq::new((len - input.len()) as nat, |i: int| 0u8)
    } else {
        input
    }
}

/// What a computed hash stands for: the value of the element, or the failure.
pub open spec fn outcome<G: Group>(r: Result<G, CRHError>) -> Result<G::Value, CRHError> {
    match r {
        Ok(element) => Ok(element.value()),
        Err(e) => Err(e),
    }
}

/// Extends `input` with zero bytes to `len` bytes.
pub fn pad_input(input: &[u8], len: usize) -> (bytes: Vec<u8>)
    ensures
        bytes@ == padded(input@, len as nat),
{
    let mut bytes: Vec<u8> = Vec::new();
    bytes.extend_from_slice(input);
    assert(bytes@ =~= input@);
    while bytes.len() < len
        invariant
            input@.len() <= bytes@.len(),
            bytes@.len() <= len || bytes@.len() == input@.len(),
            bytes@ =~= input@ + Seq::new((bytes@.len() - input@.len()) as nat, |i: int| 0u8),
        decreases len - bytes@.len(),
    {
        bytes.push(0u8);
    }
    bytes
}

/// A hash function: the bases and geometry that define it.
#[derive(Clone, Debug, PartialEq, Eq, PartialOrd, Ord)]
pub struct PedersenCRH<G: Group> {
    pub parameters: PedersenCRHParameters<G>,
}

impl<G: Group> PedersenCRH<G> {
    /// The length of the first window of bases, zero where there is none.
    pub open spec fn first_window_len(&self) -> usize {
        if self.parameters.bases@.len() > 0 {
            self.parameters.bases@[0]@.len() as usize
        } else {
            0
        }
    }

    /// The bits that select the bases: those of the input, zero-padded to the
    /// capacity.
    pub open spec fn selection_bits(&self, input: Seq<u8>) -> Seq<bool> {
        bits_of(padded(input, self.parameters.size.spec_input_size_bytes()))
    }

    /// The hash of `input`.
    ///
    /// An input of more bits than the capacity is refused. Next, parameters
    /// that do not hold exactly one window of bases per window of the geometry
    /// are refused. Otherwise the input is zero-padded to the capacity and cut
    /// into windows, and the hash is the sum over all windows of the bases
    /// whose bit is set.
    pub open spec fn hash_spec(&self, input: Seq<u8>) -> Result<G::Value, CRHError> {
        let size = self.parameters.size;
        if input.len() * 8 > size.spec_input_size_bits() {
            Err(
                CRHError::IncorrectInputLength(
                    input.len() as usize,
                    size.spec_window_size(),
                    size.spec_num_windows(),
                ),
            )
        } else if self.parameters.bases@.len() != size.spec_num_windows() {
            Err(
                CRHError::IncorrectParameterSize(
                    self.first_window_len(),
                    self.parameters.bases@.len() as usize,
                    size.spec_window_size(),
                    size.spec_num_windows(),
                ),
            )
        } else {
            Ok(
                total_value::<G>(
                    self.selection_bits(input),
                    size.spec_window_size() as nat,
                    base_values(self.parameters.bases@),
                ),
            )
        }
    }

    /// A hash function with freshly sampled bases.
    pub fn setup(rng: &mut StdRng, size: PedersenSize) -> (crh: Self)
        ensures
            crh.parameters.size == size,
            crh.parameters.well_shaped(),
    {
        PedersenCRH { parameters: PedersenCRHParameters::setup(rng, size) }
    }

    /// The parameters that define this hash function.
    pub fn parameters(&self) -> (parameters: &PedersenCRHParameters<G>)
        ensures
            *parameters == self.parameters,
    {
        &self.parameters
    }

    /// Validates the input and the parameters, and decomposes the padded
    /// input into its bits.
    fn checked_bits(&self, input: &[u8]) -> (r: Result<Vec<bool>, CRHError>)
        ensures
            match r {
                Ok(bits) => self.hash_spec(input@) is Ok && bits@ == self.selection_bits(input@),
                Err(e) => self.hash_spec(input@) == Err::<G::Value, CRHError>(e),
            },
    {
        let size = &self.parameters.size;
        let capacity_bytes: usize = size.input_size_bits() / 8;
        if input.len() > capacity_bytes {
            return Err(
                CRHError::IncorrectInputLength(
                    input.len(),
                    size.window_size(),
                    size.num_windows(),
                ),
            );
        }
        let bytes = pad_input(input, capacity_bytes);
        let bases = &self.parameters.bases;
        if bases.len() != size.num_windows() {
            let first: usize = if bases.len() > 0 {
                bases[0].len()
            } else {
                0
            };
            return Err(
                CRHError::IncorrectParameterSize(
                    first,
                    bases.len(),
                    size.window_size(),
                    size.num_windows(),
                ),
            );
        }
        Ok(bytes_to_bits(bytes.as_slice()))
    }

    /// Hashes `input`, computing the window sums one after the other.
    pub fn hash(&self, input: &[u8]) -> (r: Result<G, CRHError>)
        ensures
            outcome(r) == self.hash_spec(input@),
    {
        match self.checked_bits(input) {
            Err(e) => Err(e),
            Ok(bits) => {
                proof {
                    use_type_invariant(&self.parameters.size);
                }
                let sums = window_sums(
                    bits.as_slice(),
                    self.parameters.size.window_size(),
                    &self.parameters.bases,
                );
                Ok(sum_all(&sums))
            },
        }
    }
}

impl<G: Group + Send + Sync> PedersenCRH<G> {
    /// Hashes `input`, computing the window sums on a pool of worker threads.
    /// The result is that of [`PedersenCRH::hash`].
    pub fn hash_parallel(&self, input: &[u8]) -> (r: Result<G, CRHError>)
        ensures
            outcome(r) == self.hash_spec(input@),
    {
        match self.checked_bits(input) {
            Err(e) => Err(e),
            Ok(bits) => {
                proof {
                    use_type_invariant(&self.parameters.size);
                }
                let sums = par_window_sums(
                    bits.as_slice(),
                    self.parameters.size.window_size(),
                    &self.parameters.bases,
                );
                Ok(sum_all(&sums))
            },
        }
    }
}

impl<G: Group> From<PedersenCRHParameters<G>> for PedersenCRH<G> {
    fn from(parameters: PedersenCRHParameters<G>) -> (crh: Self) {
        PedersenCRH { parameters }
    }
}

impl<G: Group> vstd::std_specs::convert::FromSpecImpl<PedersenCRHParameters<G>> for PedersenCRH<G> {
    open spec fn obeys_from_spec() -> bool {
        true
    }

    open spec fn from_spec(parameters: PedersenCRHParameters<G>) -> Self {
        PedersenCRH { parameters }
    }
}

/// The hash function projects onto the projection of its parameters.
impl<F, G: Group + ToConstraintField<F>> ToConstraintField<F> for PedersenCRH<G> {
    open spec fn field_elements(&self) -> Result<Seq<F>, ConstraintFieldError> {
        self.parameters.field_elements()
    }

    fn to_field_elements(&self) -> (r: Result<Vec<F>, ConstraintFieldError>) {
        self.parameters.to_field_elements()
    }
}

} // verus!
