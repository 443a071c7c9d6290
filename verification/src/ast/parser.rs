//! A recursive descent parser over the tokens of [`crate::lexer::parse_source`],
//! proved to follow the grammar of [`super::grammar`].
use vstd::prelude::*;

use super::function::{names_view, Function, FunctionView};
use super::grammar::{
    advanced, arguments_at, assignment_at, block_at, call_at, comparison_at, comparison_of, function_at,
    expect_sym, expression_at, identifier_at, if_at, kw_at, leaf, lemma_skip_breaks, literal_at,
    loc_at, loop_at, operation_of, operations_at, parameters_at, primary_at, print_at, program_from,
    return_at, skip_breaks, statement_at, stream_view, sym_at, while_at, BlockParse, NodeParse,
};
use super::table::FunctionTable;
use super::AST;
use super::node::{block_view, ComparisonType, Node, NodeKind, NodeKindView, NodeView, OperationType};
use crate::error::{TokenError, TokenErrorType, TokenErrorView};
use crate::lexer::token::{
    ComparisonKind, KeywordKind, OperationKind, SymbolKind, Token, TokenKind, TokenKindView,
    TokenLocation, TokenView,
};
use crate::text::{
    extend_chars, parse_i32, remove_underscores, str_chars, string_chars, string_starts_with,
    string_tail,
};

verus! {

/// Whether an executable parse result is the one the grammar gives.
pub open spec fn node_result(r: Result<(Node, usize), TokenError>, s: NodeParse) -> bool {
    match s {
        Ok((n, q)) => (r matches Ok((m, u)) && m@ == n && u == q),
        Err(e) => (r matches Err(x) && x@ == e),
    }
}

/// Whether an executable block parse result is the one the grammar gives.
pub open spec fn block_result(r: Result<(Vec<Box<Node>>, usize), TokenError>, s: BlockParse) -> bool {
    match s {
        Ok((b, q)) => (r matches Ok((m, u)) && block_view(m@) == b && u == q),
        Err(e) => (r matches Err(x) && x@ == e),
    }
}

/// Whether a successful parse result ends after `p` and within `len`.
pub open spec fn moved_on<T>(r: Result<(T, usize), TokenError>, p: int, len: int) -> bool {
    r matches Ok((_, q)) ==> p < q <= len
}

pub proof fn lemma_block_view_push(b: Seq<Box<Node>>, n: Box<Node>)
    ensures
        block_view(b.push(n)) == block_view(b).push(node_view_of(*n)),
{
    assert(b.push(n).subrange(0, b.len() as int) =~= b);
}

/// The value of a node (an alias of its view, usable on a plain value).
pub open spec fn node_view_of(n: Node) -> NodeView {
    n@
}

fn node(kind: NodeKind) -> (r: Node)
    ensures
        r.kind == kind,
        r.span is None,
{
    Node { kind, span: None }
}

/// A parser over a stream of tokens, with the position it has reached.
pub struct Parser {
    tokens: Vec<Token>,
    pos: usize,
}

impl Parser {
    /// The values of the tokens being parsed.
    pub closed spec fn stream(&self) -> Seq<TokenView> {
        stream_view(self.tokens@)
    }

    /// The position reached.
    pub closed spec fn position(&self) -> int {
        self.pos as int
    }

    /// A parser at the start of the given tokens.
    pub fn new(tokens: Vec<Token>) -> (r: Parser)
        ensures
            r.stream() == stream_view(tokens@),
            r.position() == 0,
    {
        Parser { tokens, pos: 0 }
    }

    fn error(&self, error_type: TokenErrorType, text: Vec<char>, pos: usize) -> (r: TokenError)
        ensures
            r@ == (TokenErrorView {
                error_type,
                text: text@,
                location: loc_at(stream_view(self.tokens@), pos as int),
            }),
    {
        TokenError::with_chars(error_type, &text, self.current_location(pos))
    }

    /// The location of the token at `pos`, if there is one.
    fn current_location(&self, pos: usize) -> (r: Option<TokenLocation>)
        ensures
            r == loc_at(stream_view(self.tokens@), pos as int),
    {
        if pos < self.tokens.len() {
            Some(self.tokens[pos].location)
        } else {
            None
        }
    }

    fn is_at_end(&self, pos: usize) -> (r: bool)
        ensures
            r == (pos >= self.tokens.len()),
    {
        pos >= self.tokens.len()
    }

    fn check_symbol(&self, pos: usize, symbol: SymbolKind) -> (r: bool)
        ensures
            r == sym_at(stream_view(self.tokens@), pos as int, symbol),
    {
        if pos < self.tokens.len() {
            match &self.tokens[pos].kind {
                TokenKind::Symbol(s) => *s == symbol,
                _ => false,
            }
        } else {
            false
        }
    }

    fn check_keyword(&self, pos: usize, keyword: KeywordKind) -> (r: bool)
        ensures
            r == kw_at(stream_view(self.tokens@), pos as int, keyword),
    {
        if pos < self.tokens.len() {
            match &self.tokens[pos].kind {
                TokenKind::Keyword(k) => *k == keyword,
                _ => false,
            }
        } else {
            false
        }
    }

    /// The first position at or after `pos` that holds no line break.
    fn skip_line_breaks(&self, pos: usize) -> (r: usize)
        requires
            pos <= self.tokens.len(),
        ensures
            r == skip_breaks(stream_view(self.tokens@), pos as int),
            pos <= r <= self.tokens.len(),
    {
        let mut p = pos;
        while self.check_symbol(p, SymbolKind::LineBreak)
            invariant
                pos <= p <= self.tokens.len(),
                skip_breaks(stream_view(self.tokens@), pos as int) == skip_breaks(
                    stream_view(self.tokens@),
                    p as int,
                ),
            decreases self.tokens.len() - p,
        {
            p = p + 1;
        }
        p
    }

    /// The symbol `symbol` at `pos`: the position after it.
    fn expect_symbol(&self, pos: usize, symbol: SymbolKind) -> (r: Result<usize, TokenError>)
        ensures
            match expect_sym(stream_view(self.tokens@), pos as int, symbol) {
                Ok(q) => r == Ok::<usize, TokenError>(q as usize),
                Err(e) => (r matches Err(x) && x@ == e),
            },
    {
        if self.check_symbol(pos, symbol) {
            assert(pos < self.tokens.len());
            Ok(pos + 1)
        } else {
            let mut text = str_chars("Expected ");
            extend_chars(&mut text, &symbol.name());
            Err(self.error(TokenErrorType::UnexpectedToken, text, pos))
        }
    }

    /// The identifier at `pos`: its name and the position after it.
    fn parse_identifier(&self, pos: usize) -> (r: Result<(String, usize), TokenError>)
        ensures
            match identifier_at(stream_view(self.tokens@), pos as int) {
                Ok((name, q)) => (r matches Ok((s, u)) && s@ == name && u == q),
                Err(e) => (r matches Err(x) && x@ == e),
            },
    {
        if pos < self.tokens.len() {
            match &self.tokens[pos].kind {
                TokenKind::Ident(name) => {
                    return Ok((name.clone(), pos + 1));
                },
                _ => {},
            }
        }
        Err(self.error(TokenErrorType::UnexpectedToken, str_chars("Expected identifier"), pos))
    }

    /// The literal whose text is `text`, read at `pos`.
    fn parse_literal(&self, pos: usize, text: &Vec<char>, next: usize) -> (r: Result<(Node, usize), TokenError>)
        ensures
            node_result(r, literal_at(stream_view(self.tokens@), pos as int, text@, next as int)),
    {
        match parse_i32(&remove_underscores(text)) {
            Ok(value) => Ok((node(NodeKind::Litteral { value }), next)),
            Err(_) => {
                let mut msg = str_chars("Invalid integer literal: ");
                extend_chars(&mut msg, text);
                Err(self.error(TokenErrorType::ParseError, msg, pos))
            },
        }
    }

    fn expected_expression(&self, pos: usize) -> (r: TokenError)
        requires
            pos < self.tokens.len(),
        ensures
            r@ == super::grammar::expected_expression(stream_view(self.tokens@), pos as int),
    {
        let mut msg = str_chars("Expected expression, found ");
        extend_chars(&mut msg, &self.tokens[pos].kind.debug_chars());
        self.error(TokenErrorType::UnexpectedToken, msg, pos)
    }

    /// primary: a literal, a negated literal, a memory value, an array access,
    /// an identifier, an expression in parentheses or a call.
    fn parse_primary(&self, pos: usize) -> (r: Result<(Node, usize), TokenError>)
        requires
            pos <= self.tokens.len(),
        ensures
            node_result(r, primary_at(stream_view(self.tokens@), pos as int)),
            moved_on(r, pos as int, self.tokens.len() as int),
        decreases self.tokens.len() - pos, 0nat,
    {
        if pos >= self.tokens.len() {
            return Err(
                TokenError::new(
                    TokenErrorType::UnexpectedEndOfStream,
                    "Unexpected end of input while parsing expression",
                    None,
                ),
            );
        }
        match &self.tokens[pos].kind {
            TokenKind::Literal(text) => self.parse_literal(pos, &string_chars(text), pos + 1),
            TokenKind::Ident(name) => {
                if string_starts_with(name, '$') {
                    Ok((node(NodeKind::MemoryValue { name: string_tail(name) }), pos + 1))
                } else if self.check_symbol(pos + 1, SymbolKind::LeftBracket) {
                    let (offset, q) = match self.parse_primary(pos + 2) {
                        Ok(x) => x,
                        Err(e) => {
                            return Err(e);
                        },
                    };
                    let r = match self.expect_symbol(q, SymbolKind::RightBracket) {
                        Ok(r) => r,
                        Err(e) => {
                            return Err(e);
                        },
                    };
                    let base = node(NodeKind::Identifier { name: name.clone() });
                    assert(base@ == leaf(NodeKindView::Identifier { name: name@ }));
                    Ok(
                        (
                            node(
                                NodeKind::MemoryOffset {
                                    base: Box::new(base),
                                    offset: Box::new(offset),
                                },
                            ),
                            r,
                        ),
                    )
                } else {
                    Ok((node(NodeKind::Identifier { name: name.clone() }), pos + 1))
                }
            },
            TokenKind::Symbol(SymbolKind::LeftParen) => {
                let (e, q) = match self.parse_expression(pos + 1) {
                    Ok(x) => x,
                    Err(err) => {
                        return Err(err);
                    },
                };
                match self.expect_symbol(q, SymbolKind::RightParen) {
                    Ok(r) => Ok((e, r)),
                    Err(err) => Err(err),
                }
            },
            TokenKind::Op(OperationKind::Subtract) => {
                if pos + 1 < self.tokens.len() {
                    match &self.tokens[pos + 1].kind {
                        TokenKind::Literal(text) => {
                            let mut signed = vec!['-'];
                            extend_chars(&mut signed, &string_chars(text));
                            assert(signed@ == seq!['-'] + text@);
                            self.parse_literal(pos, &signed, pos + 2)
                        },
                        _ => Err(self.expected_expression(pos)),
                    }
                } else {
                    Err(self.expected_expression(pos))
                }
            },
            TokenKind::Keyword(KeywordKind::Call) => self.parse_function_call(pos + 1),
            _ => Err(self.expected_expression(pos)),
        }
    }

    /// expression: a primary, then operators and operands combined from the
    /// left, or a call written `name(arguments)`.
    fn parse_expression(&self, pos: usize) -> (r: Result<(Node, usize), TokenError>)
        requires
            pos <= self.tokens.len(),
        ensures
            node_result(r, expression_at(stream_view(self.tokens@), pos as int)),
            moved_on(r, pos as int, self.tokens.len() as int),
        decreases self.tokens.len() - pos, 1nat,
    {
        let (left, q) = match self.parse_primary(pos) {
            Ok(x) => x,
            Err(e) => {
                return Err(e);
            },
        };
        self.parse_operations(q, left)
    }

    fn parse_operations(&self, pos: usize, left: Node) -> (r: Result<(Node, usize), TokenError>)
        requires
            pos <= self.tokens.len(),
        ensures
            node_result(r, operations_at(stream_view(self.tokens@), pos as int, left@)),
            r matches Ok((_, q)) ==> pos <= q <= self.tokens.len(),
        decreases self.tokens.len() - pos, 0nat,
    {
        let ghost t = stream_view(self.tokens@);
        let ghost left_view = left@;
        let mut p = pos;
        let mut acc = left;
        loop
            invariant
                t == stream_view(self.tokens@),
                pos <= p <= self.tokens.len(),
                left_view == left@,
                operations_at(t, pos as int, left_view) == operations_at(t, p as int, acc@),
            decreases self.tokens.len() - p,
        {
            let op = if p < self.tokens.len() {
                match &self.tokens[p].kind {
                    TokenKind::Op(OperationKind::Add) => Some(OperationType::Addition),
                    TokenKind::Op(OperationKind::Subtract) => Some(OperationType::Substraction),
                    TokenKind::Op(OperationKind::Multiply) => Some(OperationType::Multiplication),
                    TokenKind::Op(OperationKind::Divide) => Some(OperationType::Division),
                    TokenKind::Op(OperationKind::Modulo) => Some(OperationType::Modulo),
                    _ => None,
                }
            } else {
                None
            };
            assert(p < self.tokens.len() ==> op == operation_of(t[p as int].kind));
            match op {
                Some(operation) => {
                    assert(0 <= p < t.len() && operation_of(t[p as int].kind) is Some);
                    let (right, q) = match self.parse_primary(p + 1) {
                        Ok(x) => x,
                        Err(e) => {
                            assert(primary_at(t, p + 1) matches Err(x) && x == e@);
                            assert(operations_at(t, p as int, acc@) matches Err(x) && x == e@);
                            return Err(e);
                        },
                    };
                    acc = node(
                        NodeKind::Operation {
                            lparam: Box::new(acc),
                            rparam: Box::new(right),
                            operation,
                        },
                    );
                    p = q;
                },
                None => {
                    let name = match &acc.kind {
                        NodeKind::Identifier { name } => {
                            if self.check_symbol(p, SymbolKind::LeftParen) {
                                Some(name.clone())
                            } else {
                                None
                            }
                        },
                        _ => None,
                    };
                    match name {
                        Some(function_name) => {
                            let (parameters, q) = match self.parse_arguments(p + 1) {
                                Ok(x) => x,
                                Err(e) => {
                                    return Err(e);
                                },
                            };
                            let r = match self.expect_symbol(q, SymbolKind::RightParen) {
                                Ok(r) => r,
                                Err(e) => {
                                    return Err(e);
                                },
                            };
                            return Ok(
                                (node(NodeKind::FunctionCall { function_name, parameters }), r),
                            );
                        },
                        None => {
                            return Ok((acc, p));
                        },
                    }
                },
            }
        }
    }

    /// The primaries from `pos` up to a `)` or the end.
    fn parse_arguments(&self, pos: usize) -> (r: Result<(Vec<Box<Node>>, usize), TokenError>)
        requires
            pos <= self.tokens.len(),
        ensures
            block_result(r, arguments_at(stream_view(self.tokens@), pos as int, seq![])),
            r matches Ok((_, q)) ==> pos <= q <= self.tokens.len(),
        decreases self.tokens.len() - pos, 1nat,
    {
        let ghost t = stream_view(self.tokens@);
        let mut p = pos;
        let mut parameters: Vec<Box<Node>> = Vec::new();
        loop
            invariant
                t == stream_view(self.tokens@),
                pos <= p <= self.tokens.len(),
                arguments_at(t, pos as int, seq![]) == arguments_at(
                    t,
                    p as int,
                    block_view(parameters@),
                ),
            decreases self.tokens.len() - p,
        {
            if self.is_at_end(p) || self.check_symbol(p, SymbolKind::RightParen) {
                return Ok((parameters, p));
            }
            let (n, q) = match self.parse_primary(p) {
                Ok(x) => x,
                Err(e) => {
                    return Err(e);
                },
            };
            proof {
                lemma_block_view_push(parameters@, Box::new(n));
            }
            parameters.push(Box::new(n));
            p = q;
        }
    }

    /// call, after `call`: a name and arguments in parentheses.
    fn parse_function_call(&self, pos: usize) -> (r: Result<(Node, usize), TokenError>)
        requires
            pos <= self.tokens.len(),
        ensures
            node_result(r, call_at(stream_view(self.tokens@), pos as int)),
            moved_on(r, pos as int, self.tokens.len() as int),
        decreases self.tokens.len() - pos, 0nat,
    {
        let (function_name, q) = match self.parse_identifier(pos) {
            Ok(x) => x,
            Err(e) => {
                return Err(e);
            },
        };
        let r = match self.expect_symbol(q, SymbolKind::LeftParen) {
            Ok(r) => r,
            Err(e) => {
                return Err(e);
            },
        };
        let (parameters, s) = match self.parse_arguments(r) {
            Ok(x) => x,
            Err(e) => {
                return Err(e);
            },
        };
        let u = match self.expect_symbol(s, SymbolKind::RightParen) {
            Ok(u) => u,
            Err(e) => {
                return Err(e);
            },
        };
        Ok((node(NodeKind::FunctionCall { function_name, parameters }), u))
    }

    /// condition: a primary, then maybe a comparison operator and a second primary.
    fn parse_comparison(&self, pos: usize) -> (r: Result<(Node, usize), TokenError>)
        requires
            pos <= self.tokens.len(),
        ensures
            node_result(r, comparison_at(stream_view(self.tokens@), pos as int)),
            moved_on(r, pos as int, self.tokens.len() as int),
        decreases self.tokens.len() - pos, 1nat,
    {
        let (left, q) = match self.parse_primary(pos) {
            Ok(x) => x,
            Err(e) => {
                return Err(e);
            },
        };
        let comparison = if q < self.tokens.len() {
            match &self.tokens[q].kind {
                TokenKind::Comp(c) => Some(
                    match c {
                        ComparisonKind::GreaterThan => ComparisonType::GT,
                        ComparisonKind::GreaterThanOrEqual => ComparisonType::GE,
                        ComparisonKind::Equal => ComparisonType::EQ,
                        ComparisonKind::NotEqual => ComparisonType::DIFF,
                        ComparisonKind::LessThanOrEqual => ComparisonType::LE,
                        ComparisonKind::LessThan => ComparisonType::LT,
                    },
                ),
                _ => None,
            }
        } else {
            None
        };
        match comparison {
            Some(comparison) => {
                let (right, r) = match self.parse_primary(q + 1) {
                    Ok(x) => x,
                    Err(e) => {
                        return Err(e);
                    },
                };
                Ok(
                    (
                        node(
                            NodeKind::Comparison {
                                lparam: Box::new(left),
                                rparam: Box::new(right),
                                comparison,
                            },
                        ),
                        r,
                    ),
                )
            },
            None => Ok((left, q)),
        }
    }

    /// assignment, after `set`: a target, `=` and an expression.
    fn parse_assignment(&self, pos: usize) -> (r: Result<(Node, usize), TokenError>)
        requires
            pos <= self.tokens.len(),
        ensures
            node_result(r, assignment_at(stream_view(self.tokens@), pos as int)),
            moved_on(r, pos as int, self.tokens.len() as int),
        decreases self.tokens.len() - pos, 1nat,
    {
        let (lparam, q) = match self.parse_primary(pos) {
            Ok(x) => x,
            Err(e) => {
                return Err(e);
            },
        };
        let is_assign = q < self.tokens.len() && match &self.tokens[q].kind {
            TokenKind::Op(OperationKind::Assign) => true,
            _ => false,
        };
        if !is_assign {
            return Err(
                self.error(TokenErrorType::UnexpectedToken, str_chars("Expected '=' in assignment"), q),
            );
        }
        let (rparam, r) = match self.parse_expression(q + 1) {
            Ok(x) => x,
            Err(e) => {
                return Err(e);
            },
        };
        Ok((node(NodeKind::Assignment { lparam: Box::new(lparam), rparam: Box::new(rparam) }), r))
    }

    /// `while`, after the keyword: a condition and a block.
    fn parse_while(&self, pos: usize) -> (r: Result<(Node, usize), TokenError>)
        requires
            pos <= self.tokens.len(),
        ensures
            node_result(r, while_at(stream_view(self.tokens@), pos as int)),
            moved_on(r, pos as int, self.tokens.len() as int),
        decreases self.tokens.len() - pos, 2nat,
    {
        let (condition, q) = match self.parse_comparison(pos) {
            Ok(x) => x,
            Err(e) => {
                return Err(e);
            },
        };
        let r = match self.expect_symbol(q, SymbolKind::LeftBrace) {
            Ok(r) => r,
            Err(e) => {
                return Err(e);
            },
        };
        let (content, s) = match self.parse_block(r) {
            Ok(x) => x,
            Err(e) => {
                return Err(e);
            },
        };
        Ok((node(NodeKind::WhileLoop { condition: Box::new(condition), content }), s))
    }

    /// `if`, after the keyword: a condition and a block.
    fn parse_if(&self, pos: usize) -> (r: Result<(Node, usize), TokenError>)
        requires
            pos <= self.tokens.len(),
        ensures
            node_result(r, if_at(stream_view(self.tokens@), pos as int)),
            moved_on(r, pos as int, self.tokens.len() as int),
        decreases self.tokens.len() - pos, 2nat,
    {
        let (condition, q) = match self.parse_comparison(pos) {
            Ok(x) => x,
            Err(e) => {
                return Err(e);
            },
        };
        let r = match self.expect_symbol(q, SymbolKind::LeftBrace) {
            Ok(r) => r,
            Err(e) => {
                return Err(e);
            },
        };
        let (content, s) = match self.parse_block(r) {
            Ok(x) => x,
            Err(e) => {
                return Err(e);
            },
        };
        Ok((node(NodeKind::IfCondition { condition: Box::new(condition), content }), s))
    }

    /// `loop`, after the keyword: a block.
    fn parse_loop(&self, pos: usize) -> (r: Result<(Node, usize), TokenError>)
        requires
            pos <= self.tokens.len(),
        ensures
            node_result(r, loop_at(stream_view(self.tokens@), pos as int)),
            moved_on(r, pos as int, self.tokens.len() as int),
        decreases self.tokens.len() - pos, 0nat,
    {
        let r = match self.expect_symbol(pos, SymbolKind::LeftBrace) {
            Ok(r) => r,
            Err(e) => {
                return Err(e);
            },
        };
        let (content, s) = match self.parse_block(r) {
            Ok(x) => x,
            Err(e) => {
                return Err(e);
            },
        };
        Ok((node(NodeKind::Loop { content }), s))
    }

    /// `return`, after the keyword: an expression, or nothing for 0.
    fn parse_return(&self, pos: usize) -> (r: Result<(Node, usize), TokenError>)
        requires
            pos <= self.tokens.len(),
        ensures
            node_result(r, return_at(stream_view(self.tokens@), pos as int)),
            r matches Ok((_, q)) ==> pos <= q <= self.tokens.len(),
        decreases self.tokens.len() - pos, 2nat,
    {
        if self.check_symbol(pos, SymbolKind::LineBreak) || self.check_symbol(
            pos,
            SymbolKind::RightBrace,
        ) || self.is_at_end(pos) {
            let zero = node(NodeKind::Litteral { value: 0 });
            assert(zero@ == leaf(NodeKindView::Litteral { value: 0 }));
            Ok((node(NodeKind::Return { value: Box::new(zero) }), pos))
        } else {
            let (value, q) = match self.parse_expression(pos) {
                Ok(x) => x,
                Err(e) => {
                    return Err(e);
                },
            };
            Ok((node(NodeKind::Return { value: Box::new(value) }), q))
        }
    }

    /// `print`, after the keyword: a primary.
    fn parse_print(&self, pos: usize) -> (r: Result<(Node, usize), TokenError>)
        requires
            pos <= self.tokens.len(),
        ensures
            node_result(r, print_at(stream_view(self.tokens@), pos as int)),
            moved_on(r, pos as int, self.tokens.len() as int),
        decreases self.tokens.len() - pos, 1nat,
    {
        let (value, q) = match self.parse_primary(pos) {
            Ok(x) => x,
            Err(e) => {
                return Err(e);
            },
        };
        Ok((node(NodeKind::Print { value: Box::new(value) }), q))
    }

    /// statement: one of the statements, after any line breaks, and the line
    /// break that ends it if there is one.
    fn parse_statement(&self, pos: usize) -> (r: Result<(Node, usize), TokenError>)
        requires
            pos <= self.tokens.len(),
        ensures
            node_result(r, statement_at(stream_view(self.tokens@), pos as int)),
            moved_on(r, pos as int, self.tokens.len() as int),
        decreases self.tokens.len() - pos, 0nat,
    {
        let q = self.skip_line_breaks(pos);
        if q >= self.tokens.len() {
            return Err(
                TokenError::new(TokenErrorType::UnexpectedEndOfStream, "Unexpected end of input", None),
            );
        }
        let result = match &self.tokens[q].kind {
            TokenKind::Keyword(KeywordKind::SetVar) => self.parse_assignment(q + 1),
            TokenKind::Keyword(KeywordKind::While) => self.parse_while(q + 1),
            TokenKind::Keyword(KeywordKind::If) => self.parse_if(q + 1),
            TokenKind::Keyword(KeywordKind::Loop) => self.parse_loop(q + 1),
            TokenKind::Keyword(KeywordKind::Return) => self.parse_return(q + 1),
            TokenKind::Keyword(KeywordKind::Call) => self.parse_function_call(q + 1),
            TokenKind::Keyword(KeywordKind::Print) => self.parse_print(q + 1),
            kind => {
                let mut msg = str_chars("Unexpected token in statement: ");
                extend_chars(&mut msg, &kind.debug_chars());
                Err(self.error(TokenErrorType::UnexpectedToken, msg, q))
            },
        };
        match result {
            Ok((n, s)) => {
                if self.check_symbol(s, SymbolKind::LineBreak) {
                    Ok((n, s + 1))
                } else {
                    Ok((n, s))
                }
            },
            Err(e) => Err(e),
        }
    }

    /// The statements of a block, after its opening brace, up to and including
    /// its closing brace.
    fn parse_block(&self, pos: usize) -> (r: Result<(Vec<Box<Node>>, usize), TokenError>)
        requires
            pos <= self.tokens.len(),
        ensures
            block_result(r, block_at(stream_view(self.tokens@), pos as int, seq![])),
            moved_on(r, pos as int, self.tokens.len() as int),
        decreases self.tokens.len() - pos, 1nat,
    {
        let ghost t = stream_view(self.tokens@);
        let mut p = pos;
        let mut content: Vec<Box<Node>> = Vec::new();
        loop
            invariant
                t == stream_view(self.tokens@),
                pos <= p <= self.tokens.len(),
                block_at(t, pos as int, seq![]) == block_at(t, p as int, block_view(content@)),
            decreases self.tokens.len() - p,
        {
            if self.is_at_end(p) || self.check_symbol(p, SymbolKind::RightBrace) {
                return match self.expect_symbol(p, SymbolKind::RightBrace) {
                    Ok(r) => Ok((content, r)),
                    Err(e) => Err(e),
                };
            }
            let q = self.skip_line_breaks(p);
            if self.check_symbol(q, SymbolKind::RightBrace) {
                return Ok((content, q + 1));
            }
            let (n, r) = match self.parse_statement(q) {
                Ok(x) => x,
                Err(e) => {
                    return Err(e);
                },
            };
            proof {
                lemma_block_view_push(content@, Box::new(n));
            }
            content.push(Box::new(n));
            p = r;
        }
    }

    /// The parameter names, up to a `)` or the end; a separator may follow each.
    fn parse_parameter_list(&self, pos: usize) -> (r: Result<(Vec<String>, usize), TokenError>)
        requires
            pos <= self.tokens.len(),
        ensures
            match parameters_at(stream_view(self.tokens@), pos as int, seq![]) {
                Ok((ps, q)) => (r matches Ok((v, u)) && names_view(v@) == ps && u == q),
                Err(e) => (r matches Err(x) && x@ == e),
            },
            r matches Ok((_, q)) ==> pos <= q <= self.tokens.len(),
    {
        let ghost t = stream_view(self.tokens@);
        let mut p = pos;
        let mut params: Vec<String> = Vec::new();
        assert(names_view(params@) =~= seq![]);
        loop
            invariant
                t == stream_view(self.tokens@),
                pos <= p <= self.tokens.len(),
                parameters_at(t, pos as int, seq![]) == parameters_at(
                    t,
                    p as int,
                    names_view(params@),
                ),
            decreases self.tokens.len() - p,
        {
            if self.is_at_end(p) || self.check_symbol(p, SymbolKind::RightParen) {
                return Ok((params, p));
            }
            let mut p2 = p;
            match &self.tokens[p].kind {
                TokenKind::Ident(name) => {
                    let ghost before = params@;
                    params.push(name.clone());
                    assert(names_view(params@) =~= names_view(before).push(name@));
                    p2 = p + 1;
                },
                _ => {},
            }
            if self.check_symbol(p2, SymbolKind::Separator) {
                p2 = p2 + 1;
            }
            if p2 == p {
                return Err(
                    self.error(TokenErrorType::UnexpectedToken, str_chars("Expected identifier"), p),
                );
            }
            p = p2;
        }
    }

    /// function, after `fn`: a name, parameters in parentheses and a block.
    fn parse_function(&self, pos: usize) -> (r: Result<(Function, usize), TokenError>)
        requires
            pos <= self.tokens.len(),
        ensures
            match function_at(stream_view(self.tokens@), pos as int) {
                Ok((f, q)) => (r matches Ok((g, u)) && g@ == f && u == q),
                Err(e) => (r matches Err(x) && x@ == e),
            },
            moved_on(r, pos as int, self.tokens.len() as int),
    {
        let (name, q) = match self.parse_identifier(pos) {
            Ok(x) => x,
            Err(e) => {
                return Err(e);
            },
        };
        let r = match self.expect_symbol(q, SymbolKind::LeftParen) {
            Ok(r) => r,
            Err(e) => {
                return Err(e);
            },
        };
        let (parameters, s) = match self.parse_parameter_list(r) {
            Ok(x) => x,
            Err(e) => {
                return Err(e);
            },
        };
        let u = match self.expect_symbol(s, SymbolKind::RightParen) {
            Ok(u) => u,
            Err(e) => {
                return Err(e);
            },
        };
        let w = match self.expect_symbol(u, SymbolKind::LeftBrace) {
            Ok(w) => w,
            Err(e) => {
                return Err(e);
            },
        };
        let (content, x) = match self.parse_block(w) {
            Ok(x) => x,
            Err(e) => {
                return Err(e);
            },
        };
        Ok((Function { name, parameters, content }, x))
    }

    /// Parses the functions from the position reached to the end of the
    /// tokens; a later function replaces an earlier one of the same name.
    pub fn parse_program(&mut self) -> (r: Result<AST, TokenError>)
        requires
            old(self).position() <= old(self).stream().len(),
        ensures
            final(self).stream() == old(self).stream(),
            match program_from(old(self).stream(), old(self).position(), seq![]) {
                Ok(fs) => (r matches Ok(ast) && ast.functions@ == fs),
                Err(e) => (r matches Err(x) && x@ == e),
            },
    {
        let ghost t = stream_view(self.tokens@);
        let ghost start = self.pos as int;
        let mut functions = FunctionTable::new();
        loop
            invariant
                t == stream_view(self.tokens@),
                t == stream_view(old(self).tokens@),
                start == old(self).pos,
                start <= self.pos <= self.tokens.len(),
                program_from(t, start, seq![]) == program_from(t, self.pos as int, functions@),
            decreases self.tokens.len() - self.pos,
        {
            let q = self.skip_line_breaks(self.pos);
            if q >= self.tokens.len() {
                self.pos = q;
                return Ok(AST { functions });
            }
            if !self.check_keyword(q, KeywordKind::Fn) {
                let mut msg = str_chars("Expected 'fn' keyword, found Some(");
                extend_chars(&mut msg, &self.tokens[q].kind.debug_chars());
                msg.push(')');
                proof {
                    reveal_strlit(")");
                }
                assert(msg@ == "Expected 'fn' keyword, found Some("@ + crate::lexer::token::kind_debug(t[q as int].kind) + ")"@);
                return Err(self.error(TokenErrorType::UnexpectedToken, msg, q));
            }
            let (f, r) = match self.parse_function(q + 1) {
                Ok(x) => x,
                Err(e) => {
                    return Err(e);
                },
            };
            functions.insert(f);
            self.pos = r;
        }
    }
}

} // verus!
