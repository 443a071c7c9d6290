//! The semantic errors of a program.
use vstd::prelude::*;

use crate::text::{extend_chars, str_chars, string_chars, string_from_chars};

verus! {

/// A semantic error in the program being compiled, with its message.
#[derive(Debug)]
pub enum SemanticError {
    /// Use of a variable that was not declared before.
    UnknownVariable(String),
    /// An operation that is not valid.
    InvalidOperation(String),
    /// A call of a function that is not defined.
    UnknownFunction(String),
    /// A call with a wrong number of arguments.
    InvalidFunctionCall(String),
}

/// The mathematical value of a [`SemanticError`].
pub enum SemanticErrorView {
    UnknownVariable(Seq<char>),
    InvalidOperation(Seq<char>),
    UnknownFunction(Seq<char>),
    InvalidFunctionCall(Seq<char>),
}

impl View for SemanticError {
    type V = SemanticErrorView;

    open spec fn view(&self) -> SemanticErrorView {
        match self {
            SemanticError::UnknownVariable(m) => SemanticErrorView::UnknownVariable(m@),
            SemanticError::InvalidOperation(m) => SemanticErrorView::InvalidOperation(m@),
            SemanticError::UnknownFunction(m) => SemanticErrorView::UnknownFunction(m@),
            SemanticError::InvalidFunctionCall(m) => SemanticErrorView::InvalidFunctionCall(m@),
        }
    }
}

/// The text of an error: `[Semantic] <kind>: <message>`.
pub open spec fn semantic_error_text(e: SemanticErrorView) -> Seq<char> {
    match e {
        SemanticErrorView::UnknownVariable(m) => "[Semantic] Unknown Variable: "@ + m,
        SemanticErrorView::InvalidOperation(m) => "[Semantic] Invalid Operation: "@ + m,
        SemanticErrorView::UnknownFunction(m) => "[Semantic] Unknown Function: "@ + m,
        SemanticErrorView::InvalidFunctionCall(m) => "[Semantic] Invalid Function Call: "@ + m,
    }
}

impl SemanticError {
    /// The text of the error, as [`semantic_error_text`] gives it.
    pub fn to_string(&self) -> (r: String)
        ensures
            r@ == semantic_error_text(self@),
    {
        let (head, m) = match self {
            SemanticError::UnknownVariable(m) => ("[Semantic] Unknown Variable: ", m),
            SemanticError::InvalidOperation(m) => ("[Semantic] Invalid Operation: ", m),
            SemanticError::UnknownFunction(m) => ("[Semantic] Unknown Function: ", m),
            SemanticError::InvalidFunctionCall(m) => ("[Semantic] Invalid Function Call: ", m),
        };
        let mut out = str_chars(head);
        extend_chars(&mut out, &string_chars(m));
        string_from_chars(&out)
    }
}

} // verus!
