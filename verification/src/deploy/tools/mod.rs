//! The stages a deployment script can run.

pub mod ciruela;
pub mod kokkupanek;
