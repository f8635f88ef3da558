pub mod book;
pub mod eval;
pub mod eval_symmetry;
pub mod search;
pub mod tt;

pub use search::{Engine, SearchResult};
