//! The virtual machine that runs AsmFG programs, and the parser of their text.
pub mod app;
pub mod blocks;
pub mod enums;
pub mod errors;
pub mod instruction;
pub mod parser;
pub mod machine;
pub mod step;

pub use instruction::{get_special_variables, Instruction, Program};
pub use machine::VirtualMachine;
