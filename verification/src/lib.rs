//! A vector-similarity classifier core: named-facet entities, schema
//! compatibility checks, record priming, a JSON record formatter, and a
//! ranking structure that yields scores from best to worst.
//!
//! Facet weights are IEEE-754 single-precision values to the programs that
//! produce them; the verified core carries each weight opaquely as its 32-bit
//! encoding and orders scores through an order-preserving integer key, so that
//! every structural guarantee here is independent of floating-point
//! evaluation, which lives with the embedding program.

pub mod classifier;
pub mod errors;
pub mod json;
pub mod models;
pub mod numerals;
pub mod ranking;
pub mod records;
