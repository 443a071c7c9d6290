//! Semantic analysis: every variable is declared before it is used, nothing is
//! assigned to a literal, and every call names a defined function with as many
//! arguments as it has parameters.
pub mod error;
pub mod utils;
pub mod validity;
pub mod analysis;

pub use analysis::analyze;
pub use error::SemanticError;
pub use utils::{get_new_variables, get_used_variables, show_span_location};
pub use validity::is_valid_assignment_lparam;
