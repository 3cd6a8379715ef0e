//! Codebase intelligence engine: scanning results in, classifications,
//! risk flags, dependency lists, structure graphs and context plans out.

pub mod text;
pub mod paths;
pub mod matching;
pub mod ir;
pub mod analyzer;
pub mod context;
pub mod risk;
pub mod graph;
pub mod scanner;
pub mod utils;
pub mod map;
pub mod symbol;
pub mod role;
