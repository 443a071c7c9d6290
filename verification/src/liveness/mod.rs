//! Liveness analysis: the basic blocks of a function, linked into a graph of
//! execution, with the variables that are still needed after each instruction.
pub mod block;
pub mod sets;

pub use block::{Block, BlockTags};
