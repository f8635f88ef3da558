pub mod app;

pub use app::{GameMode, StockSharkApp};
