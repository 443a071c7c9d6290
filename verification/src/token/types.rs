use vstd::prelude::*;

use crate::text::{str_chars, string_from_chars};

verus! {

/// The kinds of token that [`super::lex`] produces.
#[derive(Debug, PartialEq, Eq, Clone, Copy, Structural)]
pub enum TokenType {
    LPAREN,
    RPAREN,
    LBRACE,
    RBRACE,
    RBRACKET,  // Indicates a memory access (with offset)
    LBRACKET,
    KEYWORD,
    OP,
    COMMENT,
    ENDL,
    ID,
    LRTRN,
}

impl TokenType {
    /// The name of the type.
    pub open spec fn spec_name(self) -> Seq<char> {
        match self {
            TokenType::LPAREN => "LPAREN"@,
            TokenType::RPAREN => "RPAREN"@,
            TokenType::LBRACE => "LBRACE"@,
            TokenType::RBRACE => "RBRACE"@,
            TokenType::RBRACKET => "RBRACKET"@,
            TokenType::LBRACKET => "LBRACKET"@,
            TokenType::KEYWORD => "KEYWORD"@,
            TokenType::OP => "OP"@,
            TokenType::COMMENT => "COMMENT"@,
            TokenType::ENDL => "ENDL"@,
            TokenType::ID => "ID"@,
            TokenType::LRTRN => "LRTRN"@,
        }
    }

    /// The name of the type, as characters.
    pub fn name_chars(&self) -> (r: Vec<char>)
        ensures
            r@ == self.spec_name(),
    {
        match self {
            TokenType::LPAREN => str_chars("LPAREN"),
            TokenType::RPAREN => str_chars("RPAREN"),
            TokenType::LBRACE => str_chars("LBRACE"),
            TokenType::RBRACE => str_chars("RBRACE"),
            TokenType::RBRACKET => str_chars("RBRACKET"),
            TokenType::LBRACKET => str_chars("LBRACKET"),
            TokenType::KEYWORD => str_chars("KEYWORD"),
            TokenType::OP => str_chars("OP"),
            TokenType::COMMENT => str_chars("COMMENT"),
            TokenType::ENDL => str_chars("ENDL"),
            TokenType::ID => str_chars("ID"),
            TokenType::LRTRN => str_chars("LRTRN"),
        }
    }

    /// The name of the type.
    pub fn to_string(&self) -> (r: String)
        ensures
            r@ == self.spec_name(),
    {
        string_from_chars(&self.name_chars())
    }
}

} // verus!
