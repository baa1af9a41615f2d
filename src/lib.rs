//! Multi-species codon optimisation: a codon model, usage tables in fixed
//! point, their refinement and averaging, a seeded sampler and the RCA metric.
pub mod codon;
pub mod error;
mod text;
pub mod genetic_code;
pub mod sequence;
pub mod table;
pub mod usage;
pub mod refine;
pub mod average;
pub mod rng;
pub mod sampler;
pub mod rca;
pub mod optimizer;
