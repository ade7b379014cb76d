//! Move generation.

pub mod com;
pub mod general;
