//! A genetic-algorithm simulation engine: discrete crossover operators, a
//! generation-stepping simulator with composable stop conditions, and the
//! aggregation of many independent trials into one averaged fitness curve.

mod random;
pub mod clock;
pub mod crossover;
pub mod bitset;
pub mod small_genome;
pub mod termination;
pub mod simulator;
pub mod batch;
pub mod genome;
pub mod individual;
