use pedersen_crh::field::FieldElements;
use pedersen_crh::{
    CRHError, ConstraintFieldError, Group, PedersenCRH, PedersenCRHParameters, PedersenSize,
    ToConstraintField,
};
use rand::rngs::StdRng;
use rand::RngCore;

/// Pairs of words added component by component, the second modulo 5. Its
/// projection fails for a pair whose second component is 4.
#[derive(Clone, Copy, Debug, PartialEq, Eq)]
struct Pair(u64, u64);

impl Group for Pair {
    type Value = (u64, u64);

    fn value(&self) -> (u64, u64) {
        (self.0, self.1)
    }

    fn zero_value() -> (u64, u64) {
        (0, 0)
    }

    fn add_values(a: (u64, u64), b: (u64, u64)) -> (u64, u64) {
        (a.0.wrapping_add(b.0), (a.1 + b.1) % 5)
    }

    fn lemma_add_commutative(_a: (u64, u64), _b: (u64, u64)) {
    }

    fn lemma_add_associative(_a: (u64, u64), _b: (u64, u64), _c: (u64, u64)) {
    }

    fn lemma_add_zero(_a: (u64, u64)) {
    }

    fn zero() -> Self {
        Pair(0, 0)
    }

    fn add(&self, other: &Self) -> Self {
        Pair(self.0.wrapping_add(other.0), (self.1 + other.1) % 5)
    }

    fn equals(&self, other: &Self) -> bool {
        self == other
    }

    fn sample(rng: &mut StdRng) -> Self {
        Pair(rng.next_u64(), rng.next_u64() % 5)
    }
}

impl ToConstraintField<u64> for Pair {
    fn field_elements(&self) -> Result<FieldElements<u64>, ConstraintFieldError> {
        unreachable!()
    }

    fn to_field_elements(&self) -> Result<Vec<u64>, ConstraintFieldError> {
        if self.1 == 4 {
            Err(ConstraintFieldError::Message(format!("no projection for {}", self.0)))
        } else {
            Ok(vec![self.0, self.1])
        }
    }
}

/// A group whose addition must never run.
#[derive(Clone, Copy, Debug, PartialEq, Eq)]
struct Untouchable;

impl Group for Untouchable {
    type Value = ();

    fn value(&self) {
    }

    fn zero_value() {
    }

    fn add_values(_a: (), _b: ()) {
    }

    fn lemma_add_commutative(_a: (), _b: ()) {
    }

    fn lemma_add_associative(_a: (), _b: (), _c: ()) {
    }

    fn lemma_add_zero(_a: ()) {
    }

    fn zero() -> Self {
        panic!("the identity was asked for")
    }

    fn add(&self, _other: &Self) -> Self {
        panic!("two elements were added")
    }

    fn equals(&self, _other: &Self) -> bool {
        true
    }

    fn sample(_rng: &mut StdRng) -> Self {
        Untouchable
    }
}

fn pairs(bases: Vec<Vec<Pair>>, window_size: usize, num_windows: usize) -> PedersenCRH<Pair> {
    let size = PedersenSize::new(window_size, num_windows).unwrap();
    PedersenCRH::from(PedersenCRHParameters { bases, size })
}

#[test]
fn hash_works_over_any_group() {
    let bases = vec![
        vec![Pair(1, 1), Pair(2, 2), Pair(3, 3), Pair(4, 4)],
        vec![Pair(10, 1), Pair(20, 1), Pair(30, 1), Pair(40, 1)],
    ];
    let crh = pairs(bases, 4, 2);
    // Bits 1, 3 of window 0 and bits 0, 1, 2 of window 1.
    assert_eq!(crh.hash(&[0b0111_1010]), Ok(Pair(2 + 4 + 10 + 20 + 30, (2 + 4 + 3) % 5)));
    assert_eq!(crh.hash_parallel(&[0b0111_1010]), crh.hash(&[0b0111_1010]));
}

#[test]
fn shape_mismatch_is_found_before_any_group_arithmetic() {
    let size = PedersenSize::new(4, 2).unwrap();
    let crh = PedersenCRH::from(PedersenCRHParameters { bases: vec![vec![Untouchable; 4]], size });
    assert_eq!(crh.hash(&[0xff]), Err(CRHError::IncorrectParameterSize(4, 1, 4, 2)));
    assert_eq!(crh.hash_parallel(&[0xff]), Err(CRHError::IncorrectParameterSize(4, 1, 4, 2)));
    assert_eq!(crh.hash(&[0xff, 0xff]), Err(CRHError::IncorrectInputLength(2, 4, 2)));
}

#[test]
fn projection_failure_of_a_base_is_passed_on() {
    let bases = vec![vec![Pair(1, 1), Pair(2, 4)], vec![Pair(3, 4), Pair(4, 0)]];
    let crh = pairs(bases, 2, 4);
    let expected = Err(ConstraintFieldError::Message(String::from("no projection for 2")));
    assert_eq!(crh.to_field_elements(), expected);
    assert_eq!(crh.parameters.to_field_elements(), expected);
}

#[test]
fn projection_of_any_group_joins_the_bases() {
    let bases = vec![vec![Pair(1, 1), Pair(2, 2)], vec![Pair(3, 3), Pair(4, 0)]];
    let crh = pairs(bases, 2, 4);
    assert_eq!(crh.to_field_elements(), Ok(vec![1u64, 1, 2, 2, 3, 3, 4, 0]));
}
