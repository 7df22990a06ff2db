//! Projection of values onto sequences of field elements.

use vstd::prelude::*;

use crate::error::ConstraintFieldError;
use crate::group::WordGroup;

verus! {

/// The mathematical sequence of field elements a value projects onto.
pub type FieldElements<F> = Seq<F>;

/// A value with a fixed projection onto a sequence of elements of the field
/// `F`, which may fail.
///
/// An implementation that is not verified gives `field_elements` any body:
/// it is never run.
pub trait ToConstraintField<F> {
    /// The projection of this value, or the reason it has none.
    spec fn field_elements(&self) -> Result<FieldElements<F>, ConstraintFieldError>;

    /// Computes the projection of this value.
    fn to_field_elements(&self) -> (r: Result<Vec<F>, ConstraintFieldError>)
        ensures
            projected(r) == self.field_elements(),
    ;
}

/// What a computed projection stands for.
pub open spec fn projected<F>(r: Result<Vec<F>, ConstraintFieldError>) -> Result<
    Seq<F>,
    ConstraintFieldError,
> {
    match r {
        Ok(elements) => Ok(elements@),
        Err(e) => Err(e),
    }
}

/// The projections of the first `n` of `items`, one after the other; where
/// one of them fails, the failure of the first that does.
pub open spec fn joined_field_elements<F, T: ToConstraintField<F>>(items: Seq<T>, n: nat) -> Result<
    Seq<F>,
    ConstraintFieldError,
>
    decreases n,
{
    if n == 0 {
        Ok(Seq::empty())
    } else {
        match joined_field_elements::<F, T>(items, (n - 1) as nat) {
            Err(e) => Err(e),
            Ok(front) => match items[n - 1].field_elements() {
                Err(e) => Err(e),
                Ok(back) => Ok(front + back),
            },
        }
    }
}

/// A list projects onto the projections of its items, in order.
impl<F, T: ToConstraintField<F>> ToConstraintField<F> for Vec<T> {
    open spec fn field_elements(&self) -> Result<Seq<F>, ConstraintFieldError> {
        joined_field_elements::<F, T>(self@, self@.len())
    }

    fn to_field_elements(&self) -> (r: Result<Vec<F>, ConstraintFieldError>) {
        let mut all: Vec<F> = Vec::new();
        let mut i: usize = 0;
        while i < self.len()
            invariant
                i <= self@.len(),
                joined_field_elements::<F, T>(self@, i as nat) == Ok::<
                    Seq<F>,
                    ConstraintFieldError,
                >(all@),
            decreases self@.len() - i,
        {
            match self[i].to_field_elements() {
                Ok(mut elements) => {
                    all.append(&mut elements);
                },
                Err(e) => {
                    proof {
                        lemma_failure_stays::<F, T>(self@, (i + 1) as nat, self@.len());
                    }
                    return Err(e);
                },
            }
            i = i + 1;
        }
        Ok(all)
    }
}

/// Once a prefix has failed, every longer prefix fails in the same way.
pub proof fn lemma_failure_stays<F, T: ToConstraintField<F>>(items: Seq<T>, n: nat, m: nat)
    requires
        n <= m,
        joined_field_elements::<F, T>(items, n) is Err,
    ensures
        joined_field_elements::<F, T>(items, m) == joined_field_elements::<F, T>(items, n),
    decreases m,
{
    if n < m {
        lemma_failure_stays::<F, T>(items, n, (m - 1) as nat);
    }
}

/// A word projects onto itself.
impl ToConstraintField<u64> for WordGroup {
    open spec fn field_elements(&self) -> Result<Seq<u64>, ConstraintFieldError> {
        Ok(seq![self.word])
    }

    fn to_field_elements(&self) -> (r: Result<Vec<u64>, ConstraintFieldError>) {
        let mut elements: Vec<u64> = Vec::new();
        elements.push(self.word);
        assert(elements@ =~= seq![self.word]);
        Ok(elements)
    }
}

} // verus!
