//! Population models.

pub mod arithmetic;
pub mod exact;
pub mod population_level_simulation;
pub mod projection;
