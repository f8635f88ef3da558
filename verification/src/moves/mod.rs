pub mod make_move;
pub mod attacks;
pub mod generator;
