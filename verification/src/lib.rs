//! Decision engine of a console shogi program: position bookkeeping with
//! per-square attack counts, move generation, evaluation and opening book.

pub mod bitop;
pub mod shogi;
pub mod direction;
pub mod piece;
pub mod effect;
pub mod moves;
pub mod board;
pub mod bitboard;
pub mod bbs;
pub mod attack;
pub mod effect_update;
pub mod position;
pub mod movelist;
pub mod naitou;
pub mod order;
pub mod util;
pub mod mynum;
pub mod movegen;
pub mod book;
pub mod engine;
pub mod sfen;
pub mod ops;
pub mod perft;
pub mod laws;
pub mod validity;
