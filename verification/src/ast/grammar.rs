//! The grammar of AFG, as functions from a token stream and a position to what
//! is parsed there and the position after it, or the error met.
//!
//! ```text
//! program    := { ";" } { "fn" function { ";" } }
//! function   := IDENT "(" { IDENT [","] } ")" "{" block
//! block      := { { ";" } statement } { ";" } "}"
//! statement  := ( "set" assignment | "while" condition "{" block | "if" condition "{" block
//!               | "loop" "{" block | "return" [expression] | "call" call | "print" primary ) [";"]
//! assignment := primary "=" expression
//! condition  := primary [ COMPARISON primary ]
//! expression := primary { OPERATOR primary } | IDENT "(" { primary } ")"
//! primary    := LITERAL | "-" LITERAL | "$"IDENT | IDENT "[" primary "]" | IDENT
//!               | "(" expression ")" | "call" call
//! call       := IDENT "(" { primary } ")"
//! ```
//!
//! A parse that succeeds always ends after the position it starts from; the
//! branches that check it are never taken and only make the recursion total.
use vstd::prelude::*;

use super::function::FunctionView;
use super::node::{ComparisonType, NodeKindView, NodeView, OperationType};
use crate::error::{TokenErrorType, TokenErrorView};
use crate::lexer::token::{
    kind_debug, ComparisonKind, KeywordKind, OperationKind, SymbolKind, Token, TokenKindView,
    TokenLocation, TokenView,
};
use crate::text::{parse_i32_spec, starts_with_char, strip_underscores};

verus! {

/// A node parsed and the position after it, or the error met.
pub type NodeParse = Result<(NodeView, int), TokenErrorView>;

/// Nodes parsed and the position after them, or the error met.
pub type BlockParse = Result<(Seq<NodeView>, int), TokenErrorView>;

/// The values of a stream of tokens.
pub open spec fn stream_view(s: Seq<Token>) -> Seq<TokenView> {
    s.map_values(|t: Token| t@)
}

/// The location of the token at `p`, if there is one.
pub open spec fn loc_at(t: Seq<TokenView>, p: int) -> Option<TokenLocation> {
    if 0 <= p < t.len() {
        Some(t[p].location)
    } else {
        None
    }
}

pub open spec fn sym_at(t: Seq<TokenView>, p: int, s: SymbolKind) -> bool {
    0 <= p < t.len() && t[p].kind == TokenKindView::Symbol(s)
}

pub open spec fn kw_at(t: Seq<TokenView>, p: int, k: KeywordKind) -> bool {
    0 <= p < t.len() && t[p].kind == TokenKindView::Keyword(k)
}

/// The first position at or after `p` that does not hold a line break.
pub open spec fn skip_breaks(t: Seq<TokenView>, p: int) -> int
    decreases t.len() - p,
{
    if sym_at(t, p, SymbolKind::LineBreak) {
        skip_breaks(t, p + 1)
    } else {
        p
    }
}

pub proof fn lemma_skip_breaks(t: Seq<TokenView>, p: int)
    ensures
        p <= skip_breaks(t, p),
        p <= t.len() ==> skip_breaks(t, p) <= t.len(),
    decreases t.len() - p,
{
    if sym_at(t, p, SymbolKind::LineBreak) {
        lemma_skip_breaks(t, p + 1);
    }
}

pub open spec fn unexpected_token(text: Seq<char>, location: Option<TokenLocation>) -> TokenErrorView {
    TokenErrorView { error_type: TokenErrorType::UnexpectedToken, text, location }
}

pub open spec fn end_of_input(text: Seq<char>) -> TokenErrorView {
    TokenErrorView { error_type: TokenErrorType::UnexpectedEndOfStream, text, location: None }
}

/// The value of the branches that are never taken.
pub open spec fn stuck() -> TokenErrorView {
    unexpected_token(seq![], None)
}

/// Whether a parse that started at `p` and ended at `q` went forward and
/// stayed in the stream.
pub open spec fn advanced(t: Seq<TokenView>, p: int, q: int) -> bool {
    p < q <= t.len()
}

/// The symbol `s` at `p`: the position after it, or an error.
pub open spec fn expect_sym(t: Seq<TokenView>, p: int, s: SymbolKind) -> Result<int, TokenErrorView> {
    if sym_at(t, p, s) {
        Ok(p + 1)
    } else {
        Err(unexpected_token("Expected "@ + s.spec_name(), loc_at(t, p)))
    }
}

/// An identifier at `p`: its name and the position after it, or an error.
pub open spec fn identifier_at(t: Seq<TokenView>, p: int) -> Result<(Seq<char>, int), TokenErrorView> {
    if 0 <= p < t.len() {
        match t[p].kind {
            TokenKindView::Ident(name) => Ok((name, p + 1)),
            _ => Err(unexpected_token("Expected identifier"@, loc_at(t, p))),
        }
    } else {
        Err(unexpected_token("Expected identifier"@, loc_at(t, p)))
    }
}

/// A node of the given kind, without a location.
pub open spec fn leaf(kind: NodeKindView) -> NodeView {
    NodeView { kind, span: None }
}

/// The literal whose text (digits, underscores, maybe a leading minus) is
/// `text`, read at `p`, the parse going on at `next`.
pub open spec fn literal_at(t: Seq<TokenView>, p: int, text: Seq<char>, next: int) -> NodeParse {
    match parse_i32_spec(strip_underscores(text)) {
        Ok(value) => Ok((leaf(NodeKindView::Litteral { value }), next)),
        Err(_) => Err(
            TokenErrorView {
                error_type: TokenErrorType::ParseError,
                text: "Invalid integer literal: "@ + text,
                location: loc_at(t, p),
            },
        ),
    }
}

/// The arithmetic operation an operator token stands for; none for `=` and
/// for tokens that are no operator.
pub open spec fn operation_of(k: TokenKindView) -> Option<OperationType> {
    match k {
        TokenKindView::Op(OperationKind::Add) => Some(OperationType::Addition),
        TokenKindView::Op(OperationKind::Subtract) => Some(OperationType::Substraction),
        TokenKindView::Op(OperationKind::Multiply) => Some(OperationType::Multiplication),
        TokenKindView::Op(OperationKind::Divide) => Some(OperationType::Division),
        TokenKindView::Op(OperationKind::Modulo) => Some(OperationType::Modulo),
        _ => None,
    }
}

pub open spec fn comparison_of(c: ComparisonKind) -> ComparisonType {
    match c {
        ComparisonKind::GreaterThan => ComparisonType::GT,
        ComparisonKind::GreaterThanOrEqual => ComparisonType::GE,
        ComparisonKind::Equal => ComparisonType::EQ,
        ComparisonKind::NotEqual => ComparisonType::DIFF,
        ComparisonKind::LessThanOrEqual => ComparisonType::LE,
        ComparisonKind::LessThan => ComparisonType::LT,
    }
}

pub open spec fn expected_expression(t: Seq<TokenView>, p: int) -> TokenErrorView {
    unexpected_token("Expected expression, found "@ + kind_debug(t[p].kind), loc_at(t, p))
}

/// primary
pub open spec fn primary_at(t: Seq<TokenView>, p: int) -> NodeParse
    decreases t.len() - p, 0nat,
{
    if p < 0 || p >= t.len() {
        Err(end_of_input("Unexpected end of input while parsing expression"@))
    } else {
        match t[p].kind {
            TokenKindView::Literal(text) => literal_at(t, p, text, p + 1),
            TokenKindView::Ident(name) => if starts_with_char(name, '$') {
                Ok((leaf(NodeKindView::MemoryValue { name: name.drop_first() }), p + 1))
            } else if sym_at(t, p + 1, SymbolKind::LeftBracket) {
                match primary_at(t, p + 2) {
                    Ok((offset, q)) => match expect_sym(t, q, SymbolKind::RightBracket) {
                        Ok(r) => Ok(
                            (
                                leaf(
                                    NodeKindView::MemoryOffset {
                                        base: Box::new(leaf(NodeKindView::Identifier { name })),
                                        offset: Box::new(offset),
                                    },
                                ),
                                r,
                            ),
                        ),
                        Err(e) => Err(e),
                    },
                    Err(e) => Err(e),
                }
            } else {
                Ok((leaf(NodeKindView::Identifier { name }), p + 1))
            },
            TokenKindView::Symbol(SymbolKind::LeftParen) => match expression_at(t, p + 1) {
                Ok((e, q)) => match expect_sym(t, q, SymbolKind::RightParen) {
                    Ok(r) => Ok((e, r)),
                    Err(err) => Err(err),
                },
                Err(err) => Err(err),
            },
            TokenKindView::Op(OperationKind::Subtract) => if p + 1 < t.len() {
                match t[p + 1].kind {
                    TokenKindView::Literal(text) => literal_at(t, p, seq!['-'] + text, p + 2),
                    _ => Err(expected_expression(t, p)),
                }
            } else {
                Err(expected_expression(t, p))
            },
            TokenKindView::Keyword(KeywordKind::Call) => call_at(t, p + 1),
            _ => Err(expected_expression(t, p)),
        }
    }
}

/// expression
pub open spec fn expression_at(t: Seq<TokenView>, p: int) -> NodeParse
    decreases t.len() - p, 1nat,
{
    match primary_at(t, p) {
        Ok((left, q)) => if advanced(t, p, q) {
            operations_at(t, q, left)
        } else {
            Err(stuck())
        },
        Err(e) => Err(e),
    }
}

/// The operators and operands that follow `left` from `p` on, combined from
/// the left; or, when `left` is a bare identifier followed by `(`, a call.
pub open spec fn operations_at(t: Seq<TokenView>, p: int, left: NodeView) -> NodeParse
    decreases t.len() - p, 0nat,
{
    if 0 <= p < t.len() && operation_of(t[p].kind) is Some {
        match primary_at(t, p + 1) {
            Ok((right, q)) => if advanced(t, p, q) {
                operations_at(
                    t,
                    q,
                    leaf(
                        NodeKindView::Operation {
                            lparam: Box::new(left),
                            rparam: Box::new(right),
                            operation: operation_of(t[p].kind)->0,
                        },
                    ),
                )
            } else {
                Err(stuck())
            },
            Err(e) => Err(e),
        }
    } else if left.kind is Identifier && sym_at(t, p, SymbolKind::LeftParen) {
        match arguments_at(t, p + 1, seq![]) {
            Ok((parameters, q)) => match expect_sym(t, q, SymbolKind::RightParen) {
                Ok(r) => Ok(
                    (
                        leaf(
                            NodeKindView::FunctionCall {
                                function_name: left.kind->Identifier_name,
                                parameters,
                            },
                        ),
                        r,
                    ),
                ),
                Err(e) => Err(e),
            },
            Err(e) => Err(e),
        }
    } else {
        Ok((left, p))
    }
}

/// The primaries from `p` up to a `)` or the end, appended to `acc`.
pub open spec fn arguments_at(t: Seq<TokenView>, p: int, acc: Seq<NodeView>) -> BlockParse
    decreases t.len() - p, 1nat,
{
    if p < 0 || p >= t.len() || sym_at(t, p, SymbolKind::RightParen) {
        Ok((acc, p))
    } else {
        match primary_at(t, p) {
            Ok((n, q)) => if advanced(t, p, q) {
                arguments_at(t, q, acc.push(n))
            } else {
                Err(stuck())
            },
            Err(e) => Err(e),
        }
    }
}

/// call
pub open spec fn call_at(t: Seq<TokenView>, p: int) -> NodeParse
    decreases t.len() - p, 0nat,
{
    match identifier_at(t, p) {
        Ok((name, q)) => match expect_sym(t, q, SymbolKind::LeftParen) {
            Ok(r) => match arguments_at(t, r, seq![]) {
                Ok((parameters, s)) => match expect_sym(t, s, SymbolKind::RightParen) {
                    Ok(u) => Ok(
                        (leaf(NodeKindView::FunctionCall { function_name: name, parameters }), u),
                    ),
                    Err(e) => Err(e),
                },
                Err(e) => Err(e),
            },
            Err(e) => Err(e),
        },
        Err(e) => Err(e),
    }
}

/// condition
pub open spec fn comparison_at(t: Seq<TokenView>, p: int) -> NodeParse
    decreases t.len() - p, 1nat,
{
    match primary_at(t, p) {
        Ok((left, q)) => if 0 <= q < t.len() && t[q].kind is Comp {
            if advanced(t, p, q) {
                match primary_at(t, q + 1) {
                    Ok((right, r)) => Ok(
                        (
                            leaf(
                                NodeKindView::Comparison {
                                    lparam: Box::new(left),
                                    rparam: Box::new(right),
                                    comparison: comparison_of(t[q].kind->Comp_0),
                                },
                            ),
                            r,
                        ),
                    ),
                    Err(e) => Err(e),
                }
            } else {
                Err(stuck())
            }
        } else {
            Ok((left, q))
        },
        Err(e) => Err(e),
    }
}

/// statement
pub open spec fn statement_at(t: Seq<TokenView>, p: int) -> NodeParse
    decreases t.len() - p, 0nat,
{
    let q = skip_breaks(t, p);
    let r = if q < 0 || q >= t.len() {
        Err(end_of_input("Unexpected end of input"@))
    } else {
        proof {
            lemma_skip_breaks(t, p);
        }
        match t[q].kind {
            TokenKindView::Keyword(KeywordKind::SetVar) => assignment_at(t, q + 1),
            TokenKindView::Keyword(KeywordKind::While) => while_at(t, q + 1),
            TokenKindView::Keyword(KeywordKind::If) => if_at(t, q + 1),
            TokenKindView::Keyword(KeywordKind::Loop) => loop_at(t, q + 1),
            TokenKindView::Keyword(KeywordKind::Return) => return_at(t, q + 1),
            TokenKindView::Keyword(KeywordKind::Call) => call_at(t, q + 1),
            TokenKindView::Keyword(KeywordKind::Print) => print_at(t, q + 1),
            k => Err(
                unexpected_token("Unexpected token in statement: "@ + kind_debug(k), loc_at(t, q)),
            ),
        }
    };
    match r {
        Ok((n, s)) => if sym_at(t, s, SymbolKind::LineBreak) {
            Ok((n, s + 1))
        } else {
            Ok((n, s))
        },
        Err(e) => Err(e),
    }
}

/// assignment
pub open spec fn assignment_at(t: Seq<TokenView>, p: int) -> NodeParse
    decreases t.len() - p, 1nat,
{
    match primary_at(t, p) {
        Ok((left, q)) => if 0 <= q < t.len() && t[q].kind == TokenKindView::Op(OperationKind::Assign) {
            if advanced(t, p, q) {
                match expression_at(t, q + 1) {
                    Ok((right, r)) => Ok(
                        (
                            leaf(
                                NodeKindView::Assignment {
                                    lparam: Box::new(left),
                                    rparam: Box::new(right),
                                },
                            ),
                            r,
                        ),
                    ),
                    Err(e) => Err(e),
                }
            } else {
                Err(stuck())
            }
        } else {
            Err(unexpected_token("Expected '=' in assignment"@, loc_at(t, q)))
        },
        Err(e) => Err(e),
    }
}

/// `while` condition `{` block
pub open spec fn while_at(t: Seq<TokenView>, p: int) -> NodeParse
    decreases t.len() - p, 2nat,
{
    match comparison_at(t, p) {
        Ok((condition, q)) => match expect_sym(t, q, SymbolKind::LeftBrace) {
            Ok(r) => if advanced(t, p, r) {
                match block_at(t, r, seq![]) {
                    Ok((content, s)) => Ok(
                        (
                            leaf(
                                NodeKindView::WhileLoop { condition: Box::new(condition), content },
                            ),
                            s,
                        ),
                    ),
                    Err(e) => Err(e),
                }
            } else {
                Err(stuck())
            },
            Err(e) => Err(e),
        },
        Err(e) => Err(e),
    }
}

/// `if` condition `{` block
pub open spec fn if_at(t: Seq<TokenView>, p: int) -> NodeParse
    decreases t.len() - p, 2nat,
{
    match comparison_at(t, p) {
        Ok((condition, q)) => match expect_sym(t, q, SymbolKind::LeftBrace) {
            Ok(r) => if advanced(t, p, r) {
                match block_at(t, r, seq![]) {
                    Ok((content, s)) => Ok(
                        (
                            leaf(
                                NodeKindView::IfCondition { condition: Box::new(condition), content },
                            ),
                            s,
                        ),
                    ),
                    Err(e) => Err(e),
                }
            } else {
                Err(stuck())
            },
            Err(e) => Err(e),
        },
        Err(e) => Err(e),
    }
}

/// `loop` `{` block
pub open spec fn loop_at(t: Seq<TokenView>, p: int) -> NodeParse
    decreases t.len() - p, 0nat,
{
    match expect_sym(t, p, SymbolKind::LeftBrace) {
        Ok(r) => match block_at(t, r, seq![]) {
            Ok((content, s)) => Ok((leaf(NodeKindView::Loop { content }), s)),
            Err(e) => Err(e),
        },
        Err(e) => Err(e),
    }
}

/// `return` [expression]; a missing value returns the literal 0.
pub open spec fn return_at(t: Seq<TokenView>, p: int) -> NodeParse
    decreases t.len() - p, 2nat,
{
    if p < 0 || p >= t.len() || sym_at(t, p, SymbolKind::LineBreak) || sym_at(
        t,
        p,
        SymbolKind::RightBrace,
    ) {
        Ok(
            (
                leaf(
                    NodeKindView::Return {
                        value: Box::new(leaf(NodeKindView::Litteral { value: 0 })),
                    },
                ),
                p,
            ),
        )
    } else {
        match expression_at(t, p) {
            Ok((value, q)) => Ok((leaf(NodeKindView::Return { value: Box::new(value) }), q)),
            Err(e) => Err(e),
        }
    }
}

/// `print` primary
pub open spec fn print_at(t: Seq<TokenView>, p: int) -> NodeParse
    decreases t.len() - p, 1nat,
{
    match primary_at(t, p) {
        Ok((value, q)) => Ok((leaf(NodeKindView::Print { value: Box::new(value) }), q)),
        Err(e) => Err(e),
    }
}

/// The statements of a block from `p` on, appended to `acc`, up to and
/// including its closing brace.
pub open spec fn block_at(t: Seq<TokenView>, p: int, acc: Seq<NodeView>) -> BlockParse
    decreases t.len() - p, 1nat,
{
    if p < 0 || p >= t.len() || sym_at(t, p, SymbolKind::RightBrace) {
        match expect_sym(t, p, SymbolKind::RightBrace) {
            Ok(r) => Ok((acc, r)),
            Err(e) => Err(e),
        }
    } else {
        let q = skip_breaks(t, p);
        if sym_at(t, q, SymbolKind::RightBrace) {
            Ok((acc, q + 1))
        } else {
            proof {
                lemma_skip_breaks(t, p);
            }
            match statement_at(t, q) {
                Ok((n, r)) => if advanced(t, p, r) {
                    block_at(t, r, acc.push(n))
                } else {
                    Err(stuck())
                },
                Err(e) => Err(e),
            }
        }
    }
}

/// The parameter names from `p` up to a `)` or the end, appended to `acc`;
/// separators between them may be left out. Anything else is an error.
pub open spec fn parameters_at(t: Seq<TokenView>, p: int, acc: Seq<Seq<char>>) -> Result<
    (Seq<Seq<char>>, int),
    TokenErrorView,
>
    decreases t.len() - p,
{
    if p < 0 || p >= t.len() || sym_at(t, p, SymbolKind::RightParen) {
        Ok((acc, p))
    } else {
        let (acc1, p1) = match t[p].kind {
            TokenKindView::Ident(name) => (acc.push(name), p + 1),
            _ => (acc, p),
        };
        let p2 = if sym_at(t, p1, SymbolKind::Separator) {
            p1 + 1
        } else {
            p1
        };
        if p2 == p {
            Err(unexpected_token("Expected identifier"@, loc_at(t, p)))
        } else {
            parameters_at(t, p2, acc1)
        }
    }
}

/// function, from the name on
pub open spec fn function_at(t: Seq<TokenView>, p: int) -> Result<(FunctionView, int), TokenErrorView> {
    match identifier_at(t, p) {
        Ok((name, q)) => match expect_sym(t, q, SymbolKind::LeftParen) {
            Ok(r) => match parameters_at(t, r, seq![]) {
                Ok((parameters, s)) => match expect_sym(t, s, SymbolKind::RightParen) {
                    Ok(u) => match expect_sym(t, u, SymbolKind::LeftBrace) {
                        Ok(w) => match block_at(t, w, seq![]) {
                            Ok((content, x)) => Ok((FunctionView { name, parameters, content }, x)),
                            Err(e) => Err(e),
                        },
                        Err(e) => Err(e),
                    },
                    Err(e) => Err(e),
                },
                Err(e) => Err(e),
            },
            Err(e) => Err(e),
        },
        Err(e) => Err(e),
    }
}

/// The index of the function named `name` in `table`, or -1.
pub open spec fn name_index(table: Seq<FunctionView>, name: Seq<char>) -> int
    decreases table.len(),
{
    if table.len() == 0 {
        -1
    } else if table.last().name == name {
        table.len() - 1
    } else {
        name_index(table.drop_last(), name)
    }
}

/// The table with `f` in it: it replaces the function of the same name, or
/// comes last.
pub open spec fn table_insert(table: Seq<FunctionView>, f: FunctionView) -> Seq<FunctionView> {
    let i = name_index(table, f.name);
    if i >= 0 {
        table.update(i, f)
    } else {
        table.push(f)
    }
}

/// Whether no two functions of the table have the same name.
pub open spec fn distinct_names(table: Seq<FunctionView>) -> bool {
    forall|i: int, j: int| 0 <= i < j < table.len() ==> table[i].name != table[j].name
}

/// The functions defined from `p` on, inserted into `table`.
pub open spec fn program_from(t: Seq<TokenView>, p: int, table: Seq<FunctionView>) -> Result<
    Seq<FunctionView>,
    TokenErrorView,
>
    decreases t.len() - p,
{
    let q = skip_breaks(t, p);
    if q < 0 || q >= t.len() {
        Ok(table)
    } else if kw_at(t, q, KeywordKind::Fn) {
        match function_at(t, q + 1) {
            Ok((f, r)) => if advanced(t, p, r) {
                program_from(t, r, table_insert(table, f))
            } else {
                Err(stuck())
            },
            Err(e) => Err(e),
        }
    } else {
        Err(
            unexpected_token(
                "Expected 'fn' keyword, found Some("@ + kind_debug(t[q].kind) + ")"@,
                loc_at(t, q),
            ),
        )
    }
}

/// The functions of a program, or the first error met.
pub open spec fn program(t: Seq<TokenView>) -> Result<Seq<FunctionView>, TokenErrorView> {
    program_from(t, 0, seq![])
}

} // verus!
