//! A verified chess-engine core: bitboard position representation,
//! Zobrist hashing, move generation with magic bitboards, alpha-beta
//! search with a transposition table, and an NNUE evaluator.

pub mod attacks;
pub mod bitboards;
pub mod board;
pub mod common;
pub mod feature_transformer;
pub mod fen;
pub mod half_kp;
pub mod laws;
pub mod layers;
pub mod make_move;
pub mod movegen;
pub mod moves;
pub mod network;
pub mod nnue;
pub mod perft;
pub mod piece;
pub mod quant;
pub mod scores;
pub mod search;
pub mod tt;
pub mod uci;
pub mod zobrist;

pub use piece::Piece;
pub use piece::PieceColor;
pub use piece::PieceType;
