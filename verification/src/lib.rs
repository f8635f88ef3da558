pub mod board;
pub mod engine;
pub mod gui;
pub mod moves;
pub mod text;
pub mod uci;
