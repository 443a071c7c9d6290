//! The tokens produced by [`crate::lexer::parse_source`].
use vstd::prelude::*;

use crate::text::{extend_chars, str_chars, string_chars};

verus! {

/// Where a token stands in the source: byte offsets of its first character and
/// one past its last, its line (from 1) and its column (from 1, in bytes from the
/// start of the line).
#[derive(Debug, Clone, Copy, PartialEq, Eq, Structural)]
pub struct TokenLocation {
    pub start: usize,
    pub end: usize,
    pub line: usize,
    pub column: usize,
}

/// The keywords of the AFG language.
#[derive(Debug, Clone, Copy, PartialEq, Eq, Structural)]
pub enum KeywordKind {
    Fn,
    While,
    SetVar,
    If,
    Else,
    Return,
    Loop,
    Call,
    Print,
}

/// Punctuation.
#[derive(Debug, Clone, Copy, PartialEq, Eq, Structural)]
pub enum SymbolKind {
    LeftParen,
    RightParen,
    LeftBracket,
    RightBracket,
    LeftBrace,
    RightBrace,
    LineBreak,
    Separator,
}

/// Arithmetic operators and the assignment sign.
#[derive(Debug, Clone, Copy, PartialEq, Eq, Structural)]
pub enum OperationKind {
    Add,
    Subtract,
    Multiply,
    Divide,
    Modulo,
    Assign,
}

/// Comparison operators.
#[derive(Debug, Clone, Copy, PartialEq, Eq, Structural)]
pub enum ComparisonKind {
    Equal,
    NotEqual,
    LessThan,
    GreaterThan,
    LessThanOrEqual,
    GreaterThanOrEqual,
}

/// What a token is; identifiers and literals keep their text.
#[derive(Debug, Clone)]
pub enum TokenKind {
    Keyword(KeywordKind),
    Ident(String),
    Literal(String),
    Symbol(SymbolKind),
    Op(OperationKind),
    Comp(ComparisonKind),
}

/// A token with its place in the source.
#[derive(Debug, Clone)]
pub struct Token {
    pub kind: TokenKind,
    pub location: TokenLocation,
}

/// The mathematical value of a [`TokenKind`].
pub enum TokenKindView {
    Keyword(KeywordKind),
    Ident(Seq<char>),
    Literal(Seq<char>),
    Symbol(SymbolKind),
    Op(OperationKind),
    Comp(ComparisonKind),
}

/// The mathematical value of a [`Token`].
pub struct TokenView {
    pub kind: TokenKindView,
    pub location: TokenLocation,
}

impl View for TokenKind {
    type V = TokenKindView;

    open spec fn view(&self) -> TokenKindView {
        match self {
            TokenKind::Keyword(k) => TokenKindView::Keyword(*k),
            TokenKind::Ident(s) => TokenKindView::Ident(s@),
            TokenKind::Literal(s) => TokenKindView::Literal(s@),
            TokenKind::Symbol(s) => TokenKindView::Symbol(*s),
            TokenKind::Op(o) => TokenKindView::Op(*o),
            TokenKind::Comp(c) => TokenKindView::Comp(*c),
        }
    }
}

impl View for Token {
    type V = TokenView;

    open spec fn view(&self) -> TokenView {
        TokenView { kind: self.kind@, location: self.location }
    }
}

impl TokenKind {
    /// A copy of this kind.
    pub fn duplicate(&self) -> (r: TokenKind)
        ensures
            r@ == self@,
    {
        match self {
            TokenKind::Keyword(k) => TokenKind::Keyword(*k),
            TokenKind::Ident(s) => TokenKind::Ident(s.clone()),
            TokenKind::Literal(s) => TokenKind::Literal(s.clone()),
            TokenKind::Symbol(s) => TokenKind::Symbol(*s),
            TokenKind::Op(o) => TokenKind::Op(*o),
            TokenKind::Comp(c) => TokenKind::Comp(*c),
        }
    }
}

impl Token {
    /// A copy of this token.
    pub fn duplicate(&self) -> (r: Token)
        ensures
            r@ == self@,
    {
        Token { kind: self.kind.duplicate(), location: self.location }
    }
}

impl KeywordKind {
    /// The name under which messages print this kind.
    pub open spec fn spec_name(self) -> Seq<char> {
        match self {
            KeywordKind::Fn => "Fn"@,
            KeywordKind::While => "While"@,
            KeywordKind::SetVar => "Set"@,
            KeywordKind::If => "If"@,
            KeywordKind::Else => "Else"@,
            KeywordKind::Return => "Return"@,
            KeywordKind::Loop => "Loop"@,
            KeywordKind::Call => "Call"@,
            KeywordKind::Print => "Print"@,
        }
    }

    /// The name under which messages print this kind.
    pub fn name(&self) -> (r: Vec<char>)
        ensures
            r@ == self.spec_name(),
    {
        match self {
            KeywordKind::Fn => str_chars("Fn"),
            KeywordKind::While => str_chars("While"),
            KeywordKind::SetVar => str_chars("Set"),
            KeywordKind::If => str_chars("If"),
            KeywordKind::Else => str_chars("Else"),
            KeywordKind::Return => str_chars("Return"),
            KeywordKind::Loop => str_chars("Loop"),
            KeywordKind::Call => str_chars("Call"),
            KeywordKind::Print => str_chars("Print"),
        }
    }
}

impl SymbolKind {
    /// The name under which messages print this kind.
    pub open spec fn spec_name(self) -> Seq<char> {
        match self {
            SymbolKind::LeftParen => "LeftParen"@,
            SymbolKind::RightParen => "RightParen"@,
            SymbolKind::LeftBracket => "LeftBracket"@,
            SymbolKind::RightBracket => "RightBracket"@,
            SymbolKind::LeftBrace => "LeftBrace"@,
            SymbolKind::RightBrace => "RightBrace"@,
            SymbolKind::LineBreak => "LineBreak"@,
            SymbolKind::Separator => "Separator"@,
        }
    }

    /// The name under which messages print this kind.
    pub fn name(&self) -> (r: Vec<char>)
        ensures
            r@ == self.spec_name(),
    {
        match self {
            SymbolKind::LeftParen => str_chars("LeftParen"),
            SymbolKind::RightParen => str_chars("RightParen"),
            SymbolKind::LeftBracket => str_chars("LeftBracket"),
            SymbolKind::RightBracket => str_chars("RightBracket"),
            SymbolKind::LeftBrace => str_chars("LeftBrace"),
            SymbolKind::RightBrace => str_chars("RightBrace"),
            SymbolKind::LineBreak => str_chars("LineBreak"),
            SymbolKind::Separator => str_chars("Separator"),
        }
    }
}

impl OperationKind {
    /// The name under which messages print this kind.
    pub open spec fn spec_name(self) -> Seq<char> {
        match self {
            OperationKind::Add => "Add"@,
            OperationKind::Subtract => "Subtract"@,
            OperationKind::Multiply => "Multiply"@,
            OperationKind::Divide => "Divide"@,
            OperationKind::Modulo => "Modulo"@,
            OperationKind::Assign => "Assign"@,
        }
    }

    /// The name under which messages print this kind.
    pub fn name(&self) -> (r: Vec<char>)
        ensures
            r@ == self.spec_name(),
    {
        match self {
            OperationKind::Add => str_chars("Add"),
            OperationKind::Subtract => str_chars("Subtract"),
            OperationKind::Multiply => str_chars("Multiply"),
            OperationKind::Divide => str_chars("Divide"),
            OperationKind::Modulo => str_chars("Modulo"),
            OperationKind::Assign => str_chars("Assign"),
        }
    }
}

impl ComparisonKind {
    /// The name under which messages print this kind.
    pub open spec fn spec_name(self) -> Seq<char> {
        match self {
            ComparisonKind::Equal => "Equal"@,
            ComparisonKind::NotEqual => "NotEqual"@,
            ComparisonKind::LessThan => "LessThan"@,
            ComparisonKind::GreaterThan => "GreaterThan"@,
            ComparisonKind::LessThanOrEqual => "LessThanOrEqual"@,
            ComparisonKind::GreaterThanOrEqual => "GreaterThanOrEqual"@,
        }
    }

    /// The name under which messages print this kind.
    pub fn name(&self) -> (r: Vec<char>)
        ensures
            r@ == self.spec_name(),
    {
        match self {
            ComparisonKind::Equal => str_chars("Equal"),
            ComparisonKind::NotEqual => str_chars("NotEqual"),
            ComparisonKind::LessThan => str_chars("LessThan"),
            ComparisonKind::GreaterThan => str_chars("GreaterThan"),
            ComparisonKind::LessThanOrEqual => str_chars("LessThanOrEqual"),
            ComparisonKind::GreaterThanOrEqual => str_chars("GreaterThanOrEqual"),
        }
    }
}

/// How messages print a token kind: the variant's name and, in brackets, its
/// content, text being quoted.
pub open spec fn kind_debug(k: TokenKindView) -> Seq<char> {
    match k {
        TokenKindView::Keyword(w) => "Keyword("@ + w.spec_name() + ")"@,
        TokenKindView::Ident(s) => "Ident(\""@ + s + "\")"@,
        TokenKindView::Literal(s) => "Literal(\""@ + s + "\")"@,
        TokenKindView::Symbol(s) => "Symbol("@ + s.spec_name() + ")"@,
        TokenKindView::Op(o) => "Op("@ + o.spec_name() + ")"@,
        TokenKindView::Comp(c) => "Comp("@ + c.spec_name() + ")"@,
    }
}

impl TokenKind {
    /// The kind as messages print it.
    pub fn debug_chars(&self) -> (r: Vec<char>)
        ensures
            r@ == kind_debug(self@),
    {
        let (head, body, quoted) = match self {
            TokenKind::Keyword(w) => (str_chars("Keyword("), w.name(), false),
            TokenKind::Ident(s) => (str_chars("Ident("), string_chars(s), true),
            TokenKind::Literal(s) => (str_chars("Literal("), string_chars(s), true),
            TokenKind::Symbol(s) => (str_chars("Symbol("), s.name(), false),
            TokenKind::Op(o) => (str_chars("Op("), o.name(), false),
            TokenKind::Comp(c) => (str_chars("Comp("), c.name(), false),
        };
        let mut out = head;
        if quoted {
            out.push('"');
        }
        extend_chars(&mut out, &body);
        if quoted {
            out.push('"');
        }
        out.push(')');
        proof {
            reveal_strlit("Keyword(");
            reveal_strlit("Ident(\"");
            reveal_strlit("Literal(\"");
            reveal_strlit("Symbol(");
            reveal_strlit("Op(");
            reveal_strlit("Comp(");
            reveal_strlit(")");
            reveal_strlit("\")");
            reveal_strlit("Ident(");
            reveal_strlit("Literal(");
        }
        assert(out@ == kind_debug(self@));
        out
    }
}

} // verus!
