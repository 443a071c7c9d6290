//! The nodes of the abstract syntax tree.
use vstd::prelude::*;

use crate::lexer::token::TokenLocation;
use crate::text::{starts_with_char, str_chars, string_from_chars, string_starts_with, string_tail};

verus! {

/// The comparisons a condition can make.
#[derive(Debug, Clone, Copy, PartialEq, Eq, Structural)]
pub enum ComparisonType {
    GT,
    GE,
    EQ,
    LE,
    LT,
    DIFF,
}

impl ComparisonType {
    /// The printed name of the comparison.
    pub open spec fn spec_name(self) -> Seq<char> {
        match self {
            ComparisonType::GT => "GT"@,
            ComparisonType::GE => "GE"@,
            ComparisonType::EQ => "EQ"@,
            ComparisonType::LE => "LE"@,
            ComparisonType::LT => "LT"@,
            ComparisonType::DIFF => "DIFF"@,
        }
    }

    /// The printed name of the comparison.
    pub fn name(&self) -> (r: Vec<char>)
        ensures
            r@ == self.spec_name(),
    {
        match self {
            ComparisonType::GT => str_chars("GT"),
            ComparisonType::GE => str_chars("GE"),
            ComparisonType::EQ => str_chars("EQ"),
            ComparisonType::LE => str_chars("LE"),
            ComparisonType::LT => str_chars("LT"),
            ComparisonType::DIFF => str_chars("DIFF"),
        }
    }

    /// The printed name of the comparison, as a string.
    pub fn to_string(&self) -> (r: String)
        ensures
            r@ == self.spec_name(),
    {
        string_from_chars(&self.name())
    }
}

impl Default for ComparisonType {
    /// Equality.
    fn default() -> (r: Self)
        ensures
            r == ComparisonType::EQ,
    {
        ComparisonType::EQ
    }
}

/// The arithmetic operations an expression can make.
#[derive(Debug, Clone, Copy, PartialEq, Eq, Structural)]
pub enum OperationType {
    Addition,
    Substraction,
    Multiplication,
    Division,
    Modulo,
}

impl OperationType {
    /// The printed name of the operation.
    pub open spec fn spec_name(self) -> Seq<char> {
        match self {
            OperationType::Addition => "Addition"@,
            OperationType::Substraction => "Substraction"@,
            OperationType::Multiplication => "Multiplication"@,
            OperationType::Division => "Division"@,
            OperationType::Modulo => "Modulo"@,
        }
    }

    /// The printed name of the operation.
    pub fn name(&self) -> (r: Vec<char>)
        ensures
            r@ == self.spec_name(),
    {
        match self {
            OperationType::Addition => str_chars("Addition"),
            OperationType::Substraction => str_chars("Substraction"),
            OperationType::Multiplication => str_chars("Multiplication"),
            OperationType::Division => str_chars("Division"),
            OperationType::Modulo => str_chars("Modulo"),
        }
    }

    /// The printed name of the operation, as a string.
    pub fn to_string(&self) -> (r: String)
        ensures
            r@ == self.spec_name(),
    {
        string_from_chars(&self.name())
    }
}

impl Default for OperationType {
    /// Addition.
    fn default() -> (r: Self)
        ensures
            r == OperationType::Addition,
    {
        OperationType::Addition
    }
}

/// A node of the tree, with the place in the source it comes from when known.
#[derive(Debug, PartialEq)]
pub struct Node {
    pub kind: NodeKind,
    pub span: Option<TokenLocation>,
}

/// What a node is.
#[derive(Debug, PartialEq)]
pub enum NodeKind {
    Identifier { name: String },
    Register { name: String },
    /// `base[offset]`, the offset being a literal, an identifier or a register.
    MemoryOffset { base: Box<Node>, offset: Box<Node> },
    /// A memory-mapped value such as `$Velocity`, named without its `$`.
    MemoryValue { name: String },
    Litteral { value: i32 },
    Assignment { lparam: Box<Node>, rparam: Box<Node> },
    Operation { lparam: Box<Node>, rparam: Box<Node>, operation: OperationType },
    Print { value: Box<Node> },
    Comparison { lparam: Box<Node>, rparam: Box<Node>, comparison: ComparisonType },
    WhileLoop { condition: Box<Node>, content: Vec<Box<Node>> },
    Loop { content: Vec<Box<Node>> },
    IfCondition { condition: Box<Node>, content: Vec<Box<Node>> },
    FunctionCall { function_name: String, parameters: Vec<Box<Node>> },
    Return { value: Box<Node> },
}

/// The mathematical value of a [`NodeKind`].
pub enum NodeKindView {
    Identifier { name: Seq<char> },
    Register { name: Seq<char> },
    MemoryOffset { base: Box<NodeView>, offset: Box<NodeView> },
    MemoryValue { name: Seq<char> },
    Litteral { value: i32 },
    Assignment { lparam: Box<NodeView>, rparam: Box<NodeView> },
    Operation { lparam: Box<NodeView>, rparam: Box<NodeView>, operation: OperationType },
    Print { value: Box<NodeView> },
    Comparison { lparam: Box<NodeView>, rparam: Box<NodeView>, comparison: ComparisonType },
    WhileLoop { condition: Box<NodeView>, content: Seq<NodeView> },
    Loop { content: Seq<NodeView> },
    IfCondition { condition: Box<NodeView>, content: Seq<NodeView> },
    FunctionCall { function_name: Seq<char>, parameters: Seq<NodeView> },
    Return { value: Box<NodeView> },
}

/// The mathematical value of a [`Node`].
pub struct NodeView {
    pub kind: NodeKindView,
    pub span: Option<TokenLocation>,
}

/// The value of a node.
pub open spec fn node_view(n: Node) -> NodeView
    decreases n,
{
    NodeView {
        kind: match n.kind {
            NodeKind::Identifier { name } => NodeKindView::Identifier { name: name@ },
            NodeKind::Register { name } => NodeKindView::Register { name: name@ },
            NodeKind::MemoryOffset { base, offset } => NodeKindView::MemoryOffset {
                base: Box::new(node_view(*base)),
                offset: Box::new(node_view(*offset)),
            },
            NodeKind::MemoryValue { name } => NodeKindView::MemoryValue { name: name@ },
            NodeKind::Litteral { value } => NodeKindView::Litteral { value },
            NodeKind::Assignment { lparam, rparam } => NodeKindView::Assignment {
                lparam: Box::new(node_view(*lparam)),
                rparam: Box::new(node_view(*rparam)),
            },
            NodeKind::Operation { lparam, rparam, operation } => NodeKindView::Operation {
                lparam: Box::new(node_view(*lparam)),
                rparam: Box::new(node_view(*rparam)),
                operation,
            },
            NodeKind::Print { value } => NodeKindView::Print { value: Box::new(node_view(*value)) },
            NodeKind::Comparison { lparam, rparam, comparison } => NodeKindView::Comparison {
                lparam: Box::new(node_view(*lparam)),
                rparam: Box::new(node_view(*rparam)),
                comparison,
            },
            NodeKind::WhileLoop { condition, content } => NodeKindView::WhileLoop {
                condition: Box::new(node_view(*condition)),
                content: block_view(content@),
            },
            NodeKind::Loop { content } => NodeKindView::Loop { content: block_view(content@) },
            NodeKind::IfCondition { condition, content } => NodeKindView::IfCondition {
                condition: Box::new(node_view(*condition)),
                content: block_view(content@),
            },
            NodeKind::FunctionCall { function_name, parameters } => NodeKindView::FunctionCall {
                function_name: function_name@,
                parameters: block_view(parameters@),
            },
            NodeKind::Return { value } => NodeKindView::Return { value: Box::new(node_view(*value)) },
        },
        span: n.span,
    }
}

/// The values of the nodes of a block, in order.
pub open spec fn block_view(b: Seq<Box<Node>>) -> Seq<NodeView>
    decreases b,
{
    if b.len() == 0 {
        seq![]
    } else {
        block_view(b.subrange(0, b.len() - 1)).push(node_view(*b[b.len() - 1]))
    }
}

impl View for Node {
    type V = NodeView;

    open spec fn view(&self) -> NodeView {
        node_view(*self)
    }
}

impl Node {
    /// A node of the given kind, with no location.
    pub fn new(kind: NodeKind) -> (r: Node)
        ensures
            r.kind == kind,
            r.span is None,
    {
        Node { kind, span: None }
    }

    /// A node of the given kind, found at `span`.
    pub fn with_span(kind: NodeKind, span: TokenLocation) -> (r: Node)
        ensures
            r.kind == kind,
            r.span == Some(span),
    {
        Node { kind, span: Some(span) }
    }
}

impl NodeKind {
    /// An identifier; a name starting with `$` names a memory value, kept
    /// without its `$`.
    pub fn new_identifier(name: String) -> (r: NodeKind)
        ensures
            starts_with_char(name@, '$') ==> (r matches NodeKind::MemoryValue { name: n } && n@
                == name@.drop_first()),
            !starts_with_char(name@, '$') ==> (r == (NodeKind::Identifier { name })),
    {
        if string_starts_with(&name, '$') {
            NodeKind::MemoryValue { name: string_tail(&name) }
        } else {
            NodeKind::Identifier { name }
        }
    }

    /// `base[offset]`.
    pub fn new_mem_offset(base: Node, offset: Node) -> (r: NodeKind)
        ensures
            r == (NodeKind::MemoryOffset { base: Box::new(base), offset: Box::new(offset) }),
    {
        NodeKind::MemoryOffset { base: Box::new(base), offset: Box::new(offset) }
    }

    /// A call of `fun_name` with the given arguments.
    pub fn new_fun_call(fun_name: String, parameters: Vec<Box<Node>>) -> (r: NodeKind)
        ensures
            r == (NodeKind::FunctionCall { function_name: fun_name, parameters }),
    {
        NodeKind::FunctionCall { function_name: fun_name, parameters }
    }
}

impl Default for NodeKind {
    /// The literal 0.
    fn default() -> (r: Self)
        ensures
            r == (NodeKind::Litteral { value: 0 }),
    {
        NodeKind::Litteral { value: 0 }
    }
}

} // verus!
