//! A kernel for biochemical reaction networks: a loader that turns network
//! markup into a structured model, and the integer structure of the
//! mass-action simulation (species resolution and stoichiometry).
pub mod models;
pub mod markup;
pub mod parser;
pub mod simulator;
pub mod scan;
