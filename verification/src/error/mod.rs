//! Errors raised while turning source text into an abstract syntax tree.
mod token;

pub use token::{token_error_message, TokenError, TokenErrorType, TokenErrorView};
