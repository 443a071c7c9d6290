//! Pseudo-assembly: the instructions generated from the syntax tree, before
//! stack slots are allocated.
pub mod assignment;
pub mod instruction;
pub mod operand_type;
pub mod program;
pub mod translation;

pub use instruction::{InstrView, PASMInstruction};
pub use operand_type::{OperandType, OperandView};
