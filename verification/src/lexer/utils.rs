use vstd::prelude::*;

use super::token::{Token, TokenLocation, TokenView};

verus! {

/// A character of the source where no token starts.
#[derive(Debug)]
pub struct LexerError {
    pub message: String,
    pub location: TokenLocation,
}

/// The mathematical value of a [`LexerError`].
pub struct LexerErrorView {
    pub message: Seq<char>,
    pub location: TokenLocation,
}

impl View for LexerError {
    type V = LexerErrorView;

    open spec fn view(&self) -> LexerErrorView {
        LexerErrorView { message: self.message@, location: self.location }
    }
}

/// The tokens of a source text and the errors met while cutting it.
pub struct LexResult {
    pub tokens: Vec<Token>,
    pub errors: Vec<LexerError>,
}

impl LexResult {
    /// Whether no error was met.
    pub fn is_ok(&self) -> (r: bool)
        ensures
            r == (self.errors@.len() == 0),
    {
        self.errors.len() == 0
    }
}

} // verus!
