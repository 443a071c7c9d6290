//! AFG: lexers, parser, semantic analysis, code generation, stack allocation
//! and liveness analysis for the AFG bot language, and the virtual machine
//! that runs AsmFG programs, with the state of its debugger.
pub mod allocation;
pub mod ast;
pub mod error;
pub mod lexer;
pub mod liveness;
pub mod machine;
pub mod pasm;
pub mod semantic;
pub mod text;
pub mod token;
