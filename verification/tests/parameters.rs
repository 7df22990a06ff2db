use pedersen_crh::group::WordGroup;
use pedersen_crh::{
    ConstraintFieldError, Group, PedersenCRH, PedersenCRHParameters, PedersenSize,
    ToConstraintField,
};
use rand::rngs::StdRng;
use rand::SeedableRng;

#[test]
fn size_accepts_a_valid_geometry() {
    let size = PedersenSize::new(64, 4).unwrap();
    assert_eq!(size.window_size(), 64);
    assert_eq!(size.num_windows(), 4);
    assert_eq!(size.input_size_bits(), 256);
    assert!(PedersenSize::new(1, 8).is_some());
    assert!(PedersenSize::new(3, 8).is_some());
}

#[test]
fn size_rejects_an_empty_dimension() {
    assert_eq!(PedersenSize::new(0, 4), None);
    assert_eq!(PedersenSize::new(64, 0), None);
    assert_eq!(PedersenSize::new(0, 0), None);
}

#[test]
fn size_rejects_a_capacity_that_is_no_whole_number_of_bytes() {
    assert_eq!(PedersenSize::new(3, 5), None);
    assert_eq!(PedersenSize::new(1, 1), None);
    assert_eq!(PedersenSize::new(7, 9), None);
}

#[test]
fn size_rejects_a_capacity_beyond_the_machine_word() {
    assert_eq!(PedersenSize::new(usize::MAX, 8), None);
    assert_eq!(PedersenSize::new(usize::MAX / 2 + 1, 2), None);
}

#[test]
fn setup_fills_every_window() {
    let size = PedersenSize::new(64, 4).unwrap();
    let mut rng = StdRng::seed_from_u64(21);
    let parameters: PedersenCRHParameters<WordGroup> = PedersenCRHParameters::setup(&mut rng, size);
    assert_eq!(parameters.size, size);
    assert_eq!(parameters.bases.len(), 4);
    for window in &parameters.bases {
        assert_eq!(window.len(), 64);
    }
}

#[test]
fn setup_draws_from_the_randomness_source() {
    let size = PedersenSize::new(64, 4).unwrap();
    let mut rng = StdRng::seed_from_u64(22);
    let first: PedersenCRH<WordGroup> = PedersenCRH::setup(&mut rng, size);
    let second: PedersenCRH<WordGroup> = PedersenCRH::setup(&mut rng, size);
    assert_ne!(first, second);
    let mut again = StdRng::seed_from_u64(22);
    let replayed: PedersenCRH<WordGroup> = PedersenCRH::setup(&mut again, size);
    assert_eq!(first, replayed);
    let window = &first.parameters.bases[0];
    assert!(window.iter().any(|base| *base != window[0]));
}

#[test]
fn sample_follows_the_generator() {
    let mut rng = StdRng::seed_from_u64(23);
    let mut same = StdRng::seed_from_u64(23);
    let first = WordGroup::sample(&mut rng);
    let second = WordGroup::sample(&mut rng);
    assert_ne!(first, second);
    assert_eq!(first, WordGroup::sample(&mut same));
}

#[test]
fn evaluator_wraps_the_parameters_unchanged() {
    let size = PedersenSize::new(8, 2).unwrap();
    let mut rng = StdRng::seed_from_u64(24);
    let parameters: PedersenCRHParameters<WordGroup> = PedersenCRHParameters::setup(&mut rng, size);
    let crh = PedersenCRH::from(parameters.clone());
    assert_eq!(crh.parameters, parameters);
    assert_eq!(crh.parameters(), &parameters);
}

#[test]
fn word_projects_onto_itself() {
    assert_eq!(WordGroup { word: 9 }.to_field_elements(), Ok(vec![9u64]));
}

#[test]
fn parameters_project_base_by_base() {
    let bases = vec![
        vec![WordGroup { word: 1 }, WordGroup { word: 2 }],
        vec![WordGroup { word: 3 }, WordGroup { word: 4 }],
    ];
    let size = PedersenSize::new(2, 4).unwrap();
    let parameters = PedersenCRHParameters { bases, size };
    assert_eq!(parameters.to_field_elements(), Ok(vec![1u64, 2, 3, 4]));
    let crh = PedersenCRH::from(parameters);
    assert_eq!(crh.to_field_elements(), Ok(vec![1u64, 2, 3, 4]));
    let empty: Vec<WordGroup> = Vec::new();
    let nothing: Result<Vec<u64>, ConstraintFieldError> = empty.to_field_elements();
    assert_eq!(nothing, Ok(Vec::new()));
}
