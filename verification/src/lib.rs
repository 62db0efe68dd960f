//! Deterministic population viability analysis: a stage-structured
//! population is projected forward in time by a square matrix of survival
//! and recruitment rates, one step per year.
//!
//! The engine is generic in the scalar that counts individuals. Every
//! contract is stated over what the scalar's own `+`, `*` and default value
//! promise, so it holds as well for machine reals, whose arithmetic rounds,
//! as for exact number types.

pub mod interface;
pub mod layout;
pub mod populations;

pub use populations::population_level_simulation::{
    run_deterministic, DimensionError, PopulationMatrix, PopulationVector,
    PvaDeterministicOutput, PvaDeterministicPopulation, PvaOutput, ShapeError, UnsupportedMode,
};
pub use populations::projection::Scalar;
