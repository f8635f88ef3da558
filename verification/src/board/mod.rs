pub mod bitboard;
pub mod fen;
pub mod fen_roundtrip;
pub mod position;
pub mod zobrist;
