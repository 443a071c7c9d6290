//! Text forms of nodes and programs: the one-line form of a node, and the
//! indented tree of a whole program.
use vstd::prelude::*;

use super::function::FunctionView;
use super::node::{block_view, node_view, Node, NodeKind, NodeKindView, NodeView};
use super::AST;
use crate::text::{extend_chars, int_chars, push_int_chars, str_chars, string_chars, string_from_chars};

verus! {

pub proof fn lemma_block_view_index(b: Seq<Box<Node>>)
    ensures
        block_view(b).len() == b.len(),
        forall|i: int| 0 <= i < b.len() ==> block_view(b)[i] == (*b[i])@,
    decreases b.len(),
{
    if b.len() > 0 {
        lemma_block_view_index(b.subrange(0, b.len() - 1));
    }
}

// ---------------------------------------------------------------------------
// The one-line form
// ---------------------------------------------------------------------------

/// The value of a node kind, apart from any node.
pub open spec fn kind_view(k: NodeKind) -> NodeKindView {
    node_view(Node { kind: k, span: None }).kind
}

/// The text of a node: a tag, then its parts; the statements of a block, and
/// the arguments of a call, stand on lines of their own.
pub open spec fn kind_text(k: NodeKindView) -> Seq<char>
    decreases k,
{
    match k {
        NodeKindView::Identifier { name } => "ID "@ + name,
        NodeKindView::MemoryValue { name } => "MEM "@ + name,
        NodeKindView::Litteral { value } => "LIT "@ + int_chars(value as int),
        NodeKindView::Register { name } => "REG "@ + name,
        NodeKindView::MemoryOffset { base, offset } => "MOF\n"@ + kind_text(base.kind) + "\n"@
            + kind_text(offset.kind),
        NodeKindView::Assignment { lparam, rparam } => "Assignment: "@ + kind_text(lparam.kind)
            + " "@ + kind_text(rparam.kind),
        NodeKindView::Comparison { lparam, rparam, comparison } => "Comparison "@ + kind_text(
            lparam.kind,
        ) + " "@ + comparison.spec_name() + " "@ + kind_text(rparam.kind),
        NodeKindView::IfCondition { condition, content } => "if "@ + kind_text(condition.kind)
            + "\n"@ + lines_text(content),
        NodeKindView::WhileLoop { condition, content } => "while "@ + kind_text(condition.kind)
            + "\n"@ + lines_text(content),
        NodeKindView::Return { value } => "ret "@ + kind_text(value.kind),
        NodeKindView::Print { value } => "Print "@ + kind_text(value.kind),
        NodeKindView::Operation { lparam, rparam, operation } => "Op "@ + kind_text(lparam.kind)
            + " "@ + operation.spec_name() + " "@ + kind_text(rparam.kind),
        NodeKindView::FunctionCall { function_name, parameters } => "fn "@ + function_name + " "@
            + lines_text(parameters),
        NodeKindView::Loop { content } => "Loop\n"@ + lines_text(content),
    }
}

/// The texts of nodes, one per line.
pub open spec fn lines_text(s: Seq<NodeView>) -> Seq<char>
    decreases s,
{
    if s.len() == 0 {
        seq![]
    } else if s.len() == 1 {
        kind_text(s[0].kind)
    } else {
        lines_text(s.subrange(0, s.len() - 1)) + "\n"@ + kind_text(s[s.len() - 1].kind)
    }
}

pub proof fn lemma_kind_view(n: Node)
    ensures
        kind_view(n.kind) == n@.kind,
{
}

fn push_str(out: &mut Vec<char>, s: &str)
    ensures
        final(out)@ == old(out)@ + s@,
{
    extend_chars(out, &str_chars(s));
}

fn push_kind_text(k: &NodeKind, out: &mut Vec<char>)
    ensures
        final(out)@ == old(out)@ + kind_text(kind_view(*k)),
    decreases k,
{
    match k {
        NodeKind::Identifier { name } => {
            push_str(out, "ID ");
            extend_chars(out, &string_chars(name));
        },
        NodeKind::MemoryValue { name } => {
            push_str(out, "MEM ");
            extend_chars(out, &string_chars(name));
        },
        NodeKind::Litteral { value } => {
            push_str(out, "LIT ");
            push_int_chars(out, *value as i64);
        },
        NodeKind::Register { name } => {
            push_str(out, "REG ");
            extend_chars(out, &string_chars(name));
        },
        NodeKind::MemoryOffset { base, offset } => {
            push_str(out, "MOF\n");
            proof {
                lemma_kind_view(**base);
            }
            push_kind_text(&base.kind, out);
            push_str(out, "\n");
            proof {
                lemma_kind_view(**offset);
            }
            push_kind_text(&offset.kind, out);
        },
        NodeKind::Assignment { lparam, rparam } => {
            push_str(out, "Assignment: ");
            proof {
                lemma_kind_view(**lparam);
            }
            push_kind_text(&lparam.kind, out);
            push_str(out, " ");
            proof {
                lemma_kind_view(**rparam);
            }
            push_kind_text(&rparam.kind, out);
        },
        NodeKind::Comparison { lparam, rparam, comparison } => {
            push_str(out, "Comparison ");
            proof {
                lemma_kind_view(**lparam);
            }
            push_kind_text(&lparam.kind, out);
            push_str(out, " ");
            extend_chars(out, &comparison.name());
            push_str(out, " ");
            proof {
                lemma_kind_view(**rparam);
            }
            push_kind_text(&rparam.kind, out);
        },
        NodeKind::IfCondition { condition, content } => {
            push_str(out, "if ");
            proof {
                lemma_kind_view(**condition);
            }
            push_kind_text(&condition.kind, out);
            push_str(out, "\n");
            push_lines_text(content, out);
        },
        NodeKind::WhileLoop { condition, content } => {
            push_str(out, "while ");
            proof {
                lemma_kind_view(**condition);
            }
            push_kind_text(&condition.kind, out);
            push_str(out, "\n");
            push_lines_text(content, out);
        },
        NodeKind::Return { value } => {
            push_str(out, "ret ");
            proof {
                lemma_kind_view(**value);
            }
            push_kind_text(&value.kind, out);
        },
        NodeKind::Print { value } => {
            push_str(out, "Print ");
            proof {
                lemma_kind_view(**value);
            }
            push_kind_text(&value.kind, out);
        },
        NodeKind::Operation { lparam, rparam, operation } => {
            push_str(out, "Op ");
            proof {
                lemma_kind_view(**lparam);
            }
            push_kind_text(&lparam.kind, out);
            push_str(out, " ");
            extend_chars(out, &operation.name());
            push_str(out, " ");
            proof {
                lemma_kind_view(**rparam);
            }
            push_kind_text(&rparam.kind, out);
        },
        NodeKind::FunctionCall { function_name, parameters } => {
            push_str(out, "fn ");
            extend_chars(out, &string_chars(function_name));
            push_str(out, " ");
            push_lines_text(parameters, out);
        },
        NodeKind::Loop { content } => {
            push_str(out, "Loop\n");
            push_lines_text(content, out);
        },
    }
}

fn push_lines_text(b: &Vec<Box<Node>>, out: &mut Vec<char>)
    ensures
        final(out)@ == old(out)@ + lines_text(block_view(b@)),
    decreases b,
{
    proof {
        lemma_block_view_index(b@);
    }
    let ghost bv = block_view(b@);
    let mut i: usize = 0;
    while i < b.len()
        invariant
            i <= b.len(),
            bv == block_view(b@),
            bv.len() == b.len(),
            forall|k: int| 0 <= k < b.len() ==> bv[k] == (*b@[k])@,
            out@ == old(out)@ + lines_text(bv.take(i as int)),
        decreases b.len() - i,
    {
        assert(bv.take(i + 1).subrange(0, i as int) =~= bv.take(i as int));
        if i > 0 {
            push_str(out, "\n");
        }
        proof {
            assert(decreases_to!(b => b@[i as int]));
        }
        push_kind_text(&b[i].kind, out);
        i = i + 1;
    }
    assert(bv.take(b.len() as int) =~= bv);
}

impl NodeKind {
    /// The text of a node of this kind, as [`kind_text`] gives it.
    pub fn to_string(&self) -> (r: String)
        ensures
            r@ == kind_text(kind_view(*self)),
    {
        let mut out: Vec<char> = Vec::new();
        push_kind_text(self, &mut out);
        string_from_chars(&out)
    }
}

impl Node {
    /// The text of this node: that of its kind.
    pub fn to_string(&self) -> (r: String)
        ensures
            r@ == kind_text(self@.kind),
    {
        self.kind.to_string()
    }
}

// ---------------------------------------------------------------------------
// The tree of a program
// ---------------------------------------------------------------------------

/// `k` copies of the indentation of an enclosing level.
pub open spec fn bars(k: nat) -> Seq<char>
    decreases k,
{
    if k == 0 {
        seq![]
    } else {
        bars((k - 1) as nat) + " |  "@
    }
}

/// What stands before a node at depth `level`: nothing at the top, else the
/// indentation of the enclosing levels and a branch.
pub open spec fn tree_prefix(level: nat) -> Seq<char> {
    if level == 0 {
        seq![]
    } else {
        bars((level - 1) as nat) + " |--"@
    }
}

/// The lines of a node at depth `level`: its tag, then its parts one level deeper;
/// loops and conditions print `Do` before their statements.
pub open spec fn tree_text(n: NodeView, level: nat) -> Seq<char>
    decreases n,
{
    let p = tree_prefix(level);
    let l = level + 1;
    match n.kind {
        NodeKindView::Identifier { name } => p + "ID "@ + name + "\n"@,
        NodeKindView::MemoryValue { name } => p + "MEM "@ + name + "\n"@,
        NodeKindView::Litteral { value } => p + "LIT "@ + int_chars(value as int) + "\n"@,
        NodeKindView::Register { name } => p + "REG "@ + name + "\n"@,
        NodeKindView::MemoryOffset { base, offset } => p + "MOF\n"@ + tree_text(*base, l) + tree_text(
            *offset,
            l,
        ),
        NodeKindView::Assignment { lparam, rparam } => p + "Assignment\n"@ + tree_text(*lparam, l)
            + tree_text(*rparam, l),
        NodeKindView::Operation { lparam, rparam, operation } => p + "Operation "@
            + operation.spec_name() + "\n"@ + tree_text(*lparam, l) + tree_text(*rparam, l),
        NodeKindView::Print { value } => p + "Print\n"@ + tree_text(*value, l),
        NodeKindView::Comparison { lparam, rparam, comparison } => p + "Comparison "@
            + comparison.spec_name() + "\n"@ + tree_text(*lparam, l) + tree_text(*rparam, l),
        NodeKindView::WhileLoop { condition, content } => p + "While\n"@ + tree_text(*condition, l)
            + p + "Do\n"@ + tree_lines(content, l),
        NodeKindView::Loop { content } => p + "Loop\n"@ + tree_lines(content, l),
        NodeKindView::IfCondition { condition, content } => p + "If\n"@ + tree_text(*condition, l)
            + p + "Do\n"@ + tree_lines(content, l),
        NodeKindView::FunctionCall { function_name, parameters } => p + "Call "@ + function_name
            + "\n"@ + tree_lines(parameters, l),
        NodeKindView::Return { value } => p + "Return\n"@ + tree_text(*value, l),
    }
}

/// The lines of the nodes of a block at depth `level`, in order.
pub open spec fn tree_lines(s: Seq<NodeView>, level: nat) -> Seq<char>
    decreases s,
{
    if s.len() == 0 {
        seq![]
    } else {
        tree_lines(s.subrange(0, s.len() - 1), level) + tree_text(s[s.len() - 1], level)
    }
}

/// The text of a program: for each function, in order, its name and the tree
/// of its statements.
pub open spec fn program_text(fs: Seq<FunctionView>) -> Seq<char>
    decreases fs.len(),
{
    if fs.len() == 0 {
        seq![]
    } else {
        program_text(fs.drop_last()) + "Function: "@ + fs.last().name + "\n"@ + tree_lines(
            fs.last().content,
            0,
        )
    }
}

/// The indentation a level gives its parts: `bars` holds that of the
/// enclosing levels, `top` tells the top level.
fn deeper(bars_now: &Vec<char>, top: bool, Ghost(level): Ghost<nat>) -> (r: Vec<char>)
    requires
        top <==> level == 0,
        bars_now@ == (if level == 0 { seq![] } else { bars((level - 1) as nat) }),
    ensures
        r@ == bars(level),
{
    let mut r = bars_now.clone();
    if !top {
        push_str(&mut r, " |  ");
    }
    r
}

fn push_prefix(out: &mut Vec<char>, bars_now: &Vec<char>, top: bool, Ghost(level): Ghost<nat>)
    requires
        top <==> level == 0,
        bars_now@ == (if level == 0 { seq![] } else { bars((level - 1) as nat) }),
    ensures
        final(out)@ == old(out)@ + tree_prefix(level),
{
    if !top {
        extend_chars(out, bars_now);
        push_str(out, " |--");
    }
}

#[verifier::rlimit(60)]
#[verifier::spinoff_prover]
fn print_node(
    n: &Node,
    out: &mut Vec<char>,
    bars_now: &Vec<char>,
    top: bool,
    Ghost(level): Ghost<nat>,
)
    requires
        top <==> level == 0,
        bars_now@ == (if level == 0 { seq![] } else { bars((level - 1) as nat) }),
    ensures
        final(out)@ == old(out)@ + tree_text(n@, level),
    decreases n,
{
    let inner = deeper(bars_now, top, Ghost(level));
    let ghost l = level + 1;
    assert(inner@ == bars((l - 1) as nat));
    push_prefix(out, bars_now, top, Ghost(level));
    match &n.kind {
        NodeKind::Identifier { name } => {
            push_str(out, "ID ");
            extend_chars(out, &string_chars(name));
            push_str(out, "\n");
        },
        NodeKind::MemoryValue { name } => {
            push_str(out, "MEM ");
            extend_chars(out, &string_chars(name));
            push_str(out, "\n");
        },
        NodeKind::Litteral { value } => {
            push_str(out, "LIT ");
            push_int_chars(out, *value as i64);
            push_str(out, "\n");
        },
        NodeKind::Register { name } => {
            push_str(out, "REG ");
            extend_chars(out, &string_chars(name));
            push_str(out, "\n");
        },
        NodeKind::MemoryOffset { base, offset } => {
            push_str(out, "MOF\n");
            print_node(base, out, &inner, false, Ghost(l));
            print_node(offset, out, &inner, false, Ghost(l));
        },
        NodeKind::Assignment { lparam, rparam } => {
            push_str(out, "Assignment\n");
            print_node(lparam, out, &inner, false, Ghost(l));
            print_node(rparam, out, &inner, false, Ghost(l));
        },
        NodeKind::Operation { lparam, rparam, operation } => {
            push_str(out, "Operation ");
            extend_chars(out, &operation.name());
            push_str(out, "\n");
            print_node(lparam, out, &inner, false, Ghost(l));
            print_node(rparam, out, &inner, false, Ghost(l));
        },
        NodeKind::Print { value } => {
            push_str(out, "Print\n");
            print_node(value, out, &inner, false, Ghost(l));
        },
        NodeKind::Comparison { lparam, rparam, comparison } => {
            push_str(out, "Comparison ");
            extend_chars(out, &comparison.name());
            push_str(out, "\n");
            print_node(lparam, out, &inner, false, Ghost(l));
            print_node(rparam, out, &inner, false, Ghost(l));
        },
        NodeKind::WhileLoop { condition, content } => {
            push_str(out, "While\n");
            print_node(condition, out, &inner, false, Ghost(l));
            push_prefix(out, bars_now, top, Ghost(level));
            push_str(out, "Do\n");
            print_block(content, out, &inner, false, Ghost(l));
        },
        NodeKind::Loop { content } => {
            push_str(out, "Loop\n");
            print_block(content, out, &inner, false, Ghost(l));
        },
        NodeKind::IfCondition { condition, content } => {
            push_str(out, "If\n");
            print_node(condition, out, &inner, false, Ghost(l));
            push_prefix(out, bars_now, top, Ghost(level));
            push_str(out, "Do\n");
            print_block(content, out, &inner, false, Ghost(l));
        },
        NodeKind::FunctionCall { function_name, parameters } => {
            push_str(out, "Call ");
            extend_chars(out, &string_chars(function_name));
            push_str(out, "\n");
            print_block(parameters, out, &inner, false, Ghost(l));
        },
        NodeKind::Return { value } => {
            push_str(out, "Return\n");
            print_node(value, out, &inner, false, Ghost(l));
        },
    }
}

/// Prints the nodes of a block at depth `level`.
fn print_block(
    block: &Vec<Box<Node>>,
    out: &mut Vec<char>,
    bars_now: &Vec<char>,
    top: bool,
    Ghost(level): Ghost<nat>,
)
    requires
        top <==> level == 0,
        bars_now@ == (if level == 0 { seq![] } else { bars((level - 1) as nat) }),
    ensures
        final(out)@ == old(out)@ + tree_lines(block_view(block@), level),
    decreases block,
{
    proof {
        lemma_block_view_index(block@);
    }
    let ghost bv = block_view(block@);
    let mut i: usize = 0;
    while i < block.len()
        invariant
            i <= block.len(),
            top <==> level == 0,
            bars_now@ == (if level == 0 { seq![] } else { bars((level - 1) as nat) }),
            bv == block_view(block@),
            bv.len() == block.len(),
            forall|k: int| 0 <= k < block.len() ==> bv[k] == (*block@[k])@,
            out@ == old(out)@ + tree_lines(bv.take(i as int), level),
        decreases block.len() - i,
    {
        assert(bv.take(i + 1).subrange(0, i as int) =~= bv.take(i as int));
        proof {
            assert(decreases_to!(block => block@[i as int]));
        }
        print_node(&block[i], out, bars_now, top, Ghost(level));
        i = i + 1;
    }
    assert(bv.take(block.len() as int) =~= bv);
}

impl AST {
    /// The text of the program, as [`program_text`] gives it.
    pub fn to_string(&self) -> (r: String)
        ensures
            r@ == program_text(self.functions@),
    {
        let mut out: Vec<char> = Vec::new();
        let empty: Vec<char> = Vec::new();
        let mut i: usize = 0;
        while i < self.functions.len()
            invariant
                i <= self.functions@.len(),
                empty@ == Seq::<char>::empty(),
                out@ == program_text(self.functions@.take(i as int)),
            decreases self.functions@.len() - i,
        {
            let f = self.functions.at(i);
            assert(self.functions@.take(i + 1).drop_last() =~= self.functions@.take(i as int));
            push_str(&mut out, "Function: ");
            extend_chars(&mut out, &string_chars(&f.name));
            push_str(&mut out, "\n");
            print_block(&f.content, &mut out, &empty, true, Ghost(0));
            i = i + 1;
        }
        assert(self.functions@.take(self.functions@.len() as int) =~= self.functions@);
        string_from_chars(&out)
    }
}

} // verus!
