//! Task runner logic for a multi-crate workspace: the feature-flag lint/test
//! matrix and the two-variant source generator with its staleness check.

pub mod cargo;
pub mod generate;
pub mod matrix;
pub mod replace;
pub mod text;
pub mod task;
