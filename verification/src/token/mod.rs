//! A word-splitting lexer for AFG source: [`lex`] cuts the text at separator
//! characters and classifies the pieces into [`Token`]s.
use vstd::prelude::*;

pub(crate) mod lexer;
mod types;
mod utils;

pub use lexer::{lex, lex_spec};
pub use types::TokenType;
pub use utils::{ensure_next_token, get_until};

use crate::error::{TokenError, TokenErrorType};
use crate::lexer::token::TokenLocation;
use crate::text::{
    extend_chars, int_error_message, int_error_text, parse_i32, parse_i32_spec, str_chars,
    string_chars,
};

verus! {

/// The metadata of a token: its line and starting character numbers.
#[derive(Debug, Clone, Copy)]
pub struct TokenMetaData {
    pub line: usize,
    pub char: usize,
}

impl TokenMetaData {
    /// The place of the token, for error messages: a location whose line is
    /// the token's line and whose start, end and column are its character number.
    pub open spec fn spec_location(self) -> TokenLocation {
        TokenLocation { start: self.char, end: self.char, line: self.line, column: self.char }
    }

    /// The place of the token, for error messages.
    pub fn location(&self) -> (r: TokenLocation)
        ensures
            r == self.spec_location(),
    {
        TokenLocation { start: self.char, end: self.char, line: self.line, column: self.char }
    }
}

/// A token extracted from the raw string.
#[derive(Debug, Clone)]
pub struct Token {
    pub token_type: TokenType,
    pub value: Option<String>,
    pub meta: TokenMetaData,
}

/// The mathematical value of a [`Token`].
pub struct TokenView {
    pub token_type: TokenType,
    pub value: Option<Seq<char>>,
    pub line: usize,
    pub char: usize,
}

impl View for Token {
    type V = TokenView;

    open spec fn view(&self) -> TokenView {
        TokenView {
            token_type: self.token_type,
            value: match self.value {
                Some(v) => Some(v@),
                None => None,
            },
            line: self.meta.line,
            char: self.meta.char,
        }
    }
}

/// The views of a sequence of tokens.
pub open spec fn tokens_view(s: Seq<Token>) -> Seq<TokenView> {
    s.map_values(|t: Token| t@)
}

/// Whether a token is an identifier whose text is an `i32` literal.
pub open spec fn spec_is_literal(t: TokenView) -> bool {
    t.token_type == TokenType::ID && (t.value matches Some(v) && parse_i32_spec(v) is Ok)
}

impl Token {
    /// A new token.
    pub fn new(token_type: TokenType, value: Option<String>, line: usize, char: usize) -> (r:
        Self)
        ensures
            r.token_type == token_type,
            r.value == value,
            r.meta.line == line,
            r.meta.char == char,
    {
        Self { token_type, value, meta: TokenMetaData { line, char } }
    }

    /// A copy of this token.
    pub fn duplicate(&self) -> (r: Token)
        ensures
            r@ == self@,
    {
        let value = match &self.value {
            Some(v) => Some(v.clone()),
            None => None,
        };
        Token { token_type: self.token_type, value, meta: self.meta }
    }

    /// Whether the token is an identifier holding an `i32` literal, such as `42` or `-42`.
    pub fn is_literal(&self) -> (r: bool)
        ensures
            r == spec_is_literal(self@),
    {
        if self.token_type != TokenType::ID {
            return false;
        }
        match &self.value {
            Some(v) => parse_i32(&string_chars(v)).is_ok(),
            None => false,
        }
    }

    /// Whether the token has the given type.
    pub fn is(&self, of_type: TokenType) -> (r: bool)
        ensures
            r == (self.token_type == of_type),
    {
        self.token_type == of_type
    }

    /// The `i32` value of the token's text.
    ///
    /// A token without a value gives a `NotALiteral` error; a value that is
    /// not an `i32` gives a `ParseError` naming the reason.
    pub fn get_literal_value(&self) -> (r: Result<i32, TokenError>)
        ensures
            self@.value matches Some(v) ==> match parse_i32_spec(v) {
                Ok(x) => r == Ok::<i32, TokenError>(x),
                Err(e) => r matches Err(err) && err@.error_type == TokenErrorType::ParseError
                    && err@.text == "Unable to parse token value: "@ + int_error_message(e)
                    && err@.location == Some(self.meta.spec_location()),
            },
            self@.value is None ==> (r matches Err(err) && err@.error_type
                == TokenErrorType::NotALiteral && err@.text == "Token is not a literal"@
                && err@.location == Some(self.meta.spec_location())),
    {
        match &self.value {
            Some(value) => match parse_i32(&string_chars(value)) {
                Ok(x) => Ok(x),
                Err(e) => {
                    let mut text = str_chars("Unable to parse token value: ");
                    extend_chars(&mut text, &string_chars(&int_error_text(e)));
                    Err(
                        TokenError::with_chars(
                            TokenErrorType::ParseError,
                            &text,
                            Some(self.meta.location()),
                        ),
                    )
                },
            },
            None => Err(
                TokenError::new(
                    TokenErrorType::NotALiteral,
                    "Token is not a literal",
                    Some(self.meta.location()),
                ),
            ),
        }
    }

    /// The token's text; a token without a value gives an `EmptyToken` error.
    pub fn get_value(&self) -> (r: Result<String, TokenError>)
        ensures
            self@.value matches Some(v) ==> r matches Ok(s) && s@ == v,
            self@.value is None ==> (r matches Err(err) && err@.error_type
                == TokenErrorType::EmptyToken && err@.text == "Token as no value"@
                && err@.location == Some(self.meta.spec_location())),
    {
        match &self.value {
            Some(value) => Ok(value.clone()),
            None => Err(
                TokenError::new(
                    TokenErrorType::EmptyToken,
                    "Token as no value",
                    Some(self.meta.location()),
                ),
            ),
        }
    }
}

} // verus!
