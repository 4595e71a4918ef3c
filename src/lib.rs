pub mod gen;
pub mod laws;
pub mod ranges;
pub mod rng;
pub mod sized;
