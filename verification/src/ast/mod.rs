//! The abstract syntax tree of AFG programs and its parser.
use vstd::prelude::*;

pub mod display;
pub mod function;
pub mod grammar;
pub mod node;
pub mod parser;
pub mod table;

use crate::error::{TokenError, TokenErrorView};
use crate::lexer::{lex_source, parse_source};
use crate::lexer::token::{Token, TokenView};
use crate::text::str_chars;
use crate::text::string_from_chars;
use function::{Function, FunctionView};
use grammar::{program, stream_view};
pub use node::{Node, NodeKind};
pub use parser::Parser;
use table::FunctionTable;

verus! {

/// A parsed program: its functions by name.
#[derive(Debug)]
pub struct AST {
    pub functions: FunctionTable,
}

/// Whether a parse result is the one the grammar gives.
pub open spec fn program_result(
    r: Result<AST, TokenError>,
    s: Result<Seq<FunctionView>, TokenErrorView>,
) -> bool {
    match s {
        Ok(fs) => (r matches Ok(ast) && ast.functions@ == fs),
        Err(e) => (r matches Err(x) && x@ == e),
    }
}

impl AST {
    /// Parses source code: cuts it into tokens, skipping the characters where
    /// no token starts, and parses the tokens.
    pub fn parse(source: &str) -> (r: Result<AST, TokenError>)
        requires
            source@.len() <= usize::MAX / 8,
        ensures
            program_result(r, program(lex_source(source@).0)),
    {
        let lex_result = parse_source(source);
        assert(stream_view(lex_result.tokens@) =~= lex_source(source@).0);
        let mut parser = Parser::new(lex_result.tokens);
        parser.parse_program()
    }

    /// Parses a stream of tokens.
    pub fn parse_tokens(tokens: Vec<Token>) -> (r: Result<AST, TokenError>)
        ensures
            program_result(r, program(stream_view(tokens@))),
    {
        let mut parser = Parser::new(tokens);
        parser.parse_program()
    }

    /// A program with one function, `main`, empty.
    pub fn new() -> (r: AST)
        ensures
            r.functions@ == seq![FunctionView { name: "main"@, parameters: seq![], content: seq![] }],
    {
        let mut functions = FunctionTable::new();
        functions.insert(Function::new(string_from_chars(&str_chars("main"))));
        r_from(functions)
    }
}

fn r_from(functions: FunctionTable) -> (r: AST)
    ensures
        r.functions == functions,
{
    AST { functions }
}

/// Parsing a source text and parsing the tokens that `parse_source` cuts
/// from it give the same result: the characters where no token starts are
/// dropped, and the same tokens are parsed.
pub proof fn lemma_source_parse_is_token_parse(source: Seq<char>, tokens: Seq<Token>)
    requires
        tokens.map_values(|t: Token| t@) == lex_source(source).0,
    ensures
        program(lex_source(source).0) == program(stream_view(tokens)),
{
}

/// A stream without tokens parses to a program without functions.
pub proof fn lemma_no_tokens_no_functions()
    ensures
        program(Seq::<TokenView>::empty()) == Ok::<Seq<FunctionView>, TokenErrorView>(
            Seq::empty(),
        ),
{
    grammar::lemma_skip_breaks(Seq::<TokenView>::empty(), 0);
}

} // verus!
