//! Positions, moves and games as text.

pub mod text;
pub mod encode;
pub mod decode;
pub mod round_trip;
