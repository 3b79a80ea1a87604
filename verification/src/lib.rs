//! # lau-quantum-topology
//!
//! Topological quantum computing primitives: the exact, discrete part.
//!
//! - Anyon types and their fusion rules (Fibonacci and Ising models)
//! - Braid words in the braid group B_n: generators, inverses, composition,
//!   exponent sum and the induced permutation of strands
//! - Fusion rules of modular tensor categories and the lookup of fusion
//!   coefficients N_{ab}^c

pub mod anyon;
pub mod braid;
pub mod mtc;

pub use anyon::{Anyon, AnyonType, FusionResult};
pub use braid::{Braid, BraidGenerator, BraidWord};
pub use mtc::{fusion_coefficient, FusionRule};
