//! A windowed Pedersen-style collision-resistant hash over an abstract
//! commutative group, with machine-checked contracts.

pub mod bits;
pub mod error;
pub mod field;
pub mod group;
pub mod laws;
pub mod parallel;
pub mod parameters;
pub mod pedersen;
pub mod random;
pub mod relay;
pub mod size;
pub mod sums;

pub use bits::bytes_to_bits;
pub use error::{CRHError, ConstraintFieldError};
pub use field::ToConstraintField;
pub use group::{Group, WordGroup};
pub use parameters::PedersenCRHParameters;
pub use pedersen::PedersenCRH;
pub use size::PedersenSize;
