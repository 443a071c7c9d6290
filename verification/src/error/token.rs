use vstd::prelude::*;

use crate::lexer::token::TokenLocation;
use crate::text::{extend_chars, nat_digits, push_nat_digits, str_chars, string_from_chars};

verus! {

/// The kinds of error that tokenizing and parsing can raise.
#[derive(Debug, Clone, Copy, PartialEq, Eq, Structural)]
pub enum TokenErrorType {
    Invalid,
    NotALiteral,
    UnexpectedToken,
    UnexpectedEndOfStream,
    ParseError,
    EmptyToken,
    InvalidArithmeticOperator,
    InvalidComparisonOperator,
}

impl TokenErrorType {
    /// The name of the kind, as `Debug` prints it.
    pub open spec fn spec_name(self) -> Seq<char> {
        match self {
            TokenErrorType::Invalid => "Invalid"@,
            TokenErrorType::NotALiteral => "NotALiteral"@,
            TokenErrorType::UnexpectedToken => "UnexpectedToken"@,
            TokenErrorType::UnexpectedEndOfStream => "UnexpectedEndOfStream"@,
            TokenErrorType::ParseError => "ParseError"@,
            TokenErrorType::EmptyToken => "EmptyToken"@,
            TokenErrorType::InvalidArithmeticOperator => "InvalidArithmeticOperator"@,
            TokenErrorType::InvalidComparisonOperator => "InvalidComparisonOperator"@,
        }
    }

    /// The name of the kind.
    pub fn name(&self) -> (r: Vec<char>)
        ensures
            r@ == self.spec_name(),
    {
        match self {
            TokenErrorType::Invalid => str_chars("Invalid"),
            TokenErrorType::NotALiteral => str_chars("NotALiteral"),
            TokenErrorType::UnexpectedToken => str_chars("UnexpectedToken"),
            TokenErrorType::UnexpectedEndOfStream => str_chars("UnexpectedEndOfStream"),
            TokenErrorType::ParseError => str_chars("ParseError"),
            TokenErrorType::EmptyToken => str_chars("EmptyToken"),
            TokenErrorType::InvalidArithmeticOperator => str_chars("InvalidArithmeticOperator"),
            TokenErrorType::InvalidComparisonOperator => str_chars("InvalidComparisonOperator"),
        }
    }
}

/// An error raised while tokenizing or parsing, with the place where it was found.
#[derive(Debug)]
pub struct TokenError {
    pub error_type: TokenErrorType,
    pub text: String,
    pub location: Option<TokenLocation>,
}

/// The mathematical value of a [`TokenError`].
pub struct TokenErrorView {
    pub error_type: TokenErrorType,
    pub text: Seq<char>,
    pub location: Option<TokenLocation>,
}

impl View for TokenError {
    type V = TokenErrorView;

    open spec fn view(&self) -> TokenErrorView {
        TokenErrorView { error_type: self.error_type, text: self.text@, location: self.location }
    }
}

/// The text of an error: its kind and message, then, when the error has a
/// location, its line, column and character offset.
pub open spec fn token_error_message(e: TokenErrorView) -> Seq<char> {
    match e.location {
        Some(loc) => "[Token] "@ + e.error_type.spec_name() + ": "@ + e.text + " at line "@
            + nat_digits(loc.line as nat) + ", column "@ + nat_digits(loc.column as nat)
            + " (char "@ + nat_digits(loc.start as nat) + ")"@,
        None => "[Token] "@ + e.error_type.spec_name() + ": "@ + e.text + "."@,
    }
}

impl TokenError {
    /// A new error of the given kind with the given message and optional location.
    pub fn new(error_type: TokenErrorType, text: &str, location: Option<TokenLocation>) -> (r:
        TokenError)
        ensures
            r@.error_type == error_type,
            r@.text == text@,
            r@.location == location,
    {
        TokenError { error_type, text: String::from_str(text), location }
    }

    /// A new error whose message is given as characters.
    pub fn with_chars(
        error_type: TokenErrorType,
        text: &Vec<char>,
        location: Option<TokenLocation>,
    ) -> (r: TokenError)
        ensures
            r@.error_type == error_type,
            r@.text == text@,
            r@.location == location,
    {
        TokenError { error_type, text: string_from_chars(text), location }
    }

    /// The human-readable text of this error.
    pub fn to_string(&self) -> (r: String)
        ensures
            r@ == token_error_message(self@),
    {
        let mut out = str_chars("[Token] ");
        extend_chars(&mut out, &self.error_type.name());
        extend_chars(&mut out, &str_chars(": "));
        extend_chars(&mut out, &crate::text::string_chars(&self.text));
        match self.location {
            Some(loc) => {
                extend_chars(&mut out, &str_chars(" at line "));
                push_nat_digits(&mut out, loc.line as u64);
                extend_chars(&mut out, &str_chars(", column "));
                push_nat_digits(&mut out, loc.column as u64);
                extend_chars(&mut out, &str_chars(" (char "));
                push_nat_digits(&mut out, loc.start as u64);
                extend_chars(&mut out, &str_chars(")"));
            },
            None => {
                extend_chars(&mut out, &str_chars("."));
            },
        }
        string_from_chars(&out)
    }
}

} // verus!
