//! Solitaire variants as transition systems, with a move advisor and an
//! exhaustive solver over them.

pub mod clock;
pub mod cribbage;
pub mod deal;
pub mod dfs;
pub mod fortune;
pub mod game;
pub mod minimax;
pub mod order;
pub mod piles;
pub mod russian;
pub mod states;
pub mod text;
