//! The variables a statement declares and uses.
use vstd::prelude::*;

use super::error::{SemanticError, SemanticErrorView};
use super::validity::{is_valid_assignment_lparam, lparam_check};
use crate::ast::display::lemma_block_view_index;
use crate::ast::function::names_view;
use crate::ast::node::{block_view, Node, NodeKind, NodeKindView, NodeView};
use crate::lexer::token::TokenLocation;
use crate::text::{
    extend_chars, nat_digits, push_nat_digits, str_chars, string_chars, string_from_chars,
};

verus! {

/// Where a node stands: ` at line L column C`, or nothing.
pub open spec fn span_text(span: Option<TokenLocation>) -> Seq<char> {
    match span {
        Some(s) => " at line "@ + nat_digits(s.line as nat) + " column "@ + nat_digits(s.column as nat),
        None => seq![],
    }
}

/// The text of a location, as [`span_text`] gives it.
pub fn show_span_location(node_span: &Option<TokenLocation>) -> (r: String)
    ensures
        r@ == span_text(*node_span),
{
    match node_span {
        Some(span) => {
            let mut out = str_chars(" at line ");
            push_nat_digits(&mut out, span.line as u64);
            extend_chars(&mut out, &str_chars(" column "));
            push_nat_digits(&mut out, span.column as u64);
            string_from_chars(&out)
        },
        None => string_from_chars(&Vec::new()),
    }
}

/// The variables a statement declares: an identifier declares itself, an
/// assignment what its left side declares.
pub open spec fn new_vars(n: NodeView) -> Seq<Seq<char>>
    decreases n,
{
    match n.kind {
        NodeKindView::Identifier { name } => seq![name],
        NodeKindView::Assignment { lparam, .. } => new_vars(*lparam),
        _ => seq![],
    }
}

/// The variables a node uses, in order, or the first error of an assignment to
/// a literal: identifiers, the right side of assignments, both sides of
/// operations and comparisons, the conditions of loops and `if`s, the
/// arguments of calls, what is printed or returned, and the base and offset of
/// a memory access.
pub open spec fn used_vars(n: NodeView) -> Result<Seq<Seq<char>>, SemanticErrorView>
    decreases n,
{
    match n.kind {
        NodeKindView::Identifier { name } => Ok(seq![name]),
        NodeKindView::Assignment { lparam, rparam } => match lparam_check(*lparam) {
            Err(e) => Err(e),
            Ok(()) => used_vars(*rparam),
        },
        NodeKindView::Operation { lparam, rparam, .. } => both_used(used_vars(*lparam), used_vars(*rparam)),
        NodeKindView::Comparison { lparam, rparam, .. } => both_used(used_vars(*lparam), used_vars(*rparam)),
        NodeKindView::WhileLoop { condition, .. } => used_vars(*condition),
        NodeKindView::IfCondition { condition, .. } => used_vars(*condition),
        NodeKindView::FunctionCall { parameters, .. } => used_vars_list(parameters),
        NodeKindView::Print { value } => used_vars(*value),
        NodeKindView::Return { value } => used_vars(*value),
        NodeKindView::MemoryOffset { base, offset } => both_used(used_vars(*base), used_vars(*offset)),
        _ => Ok(seq![]),
    }
}

/// The variables of two parts in order, or the first error.
pub open spec fn both_used(
    a: Result<Seq<Seq<char>>, SemanticErrorView>,
    b: Result<Seq<Seq<char>>, SemanticErrorView>,
) -> Result<Seq<Seq<char>>, SemanticErrorView> {
    match a {
        Err(e) => Err(e),
        Ok(x) => match b {
            Err(e) => Err(e),
            Ok(y) => Ok(x + y),
        },
    }
}

/// The variables the nodes of a list use, in order, or the first error.
pub open spec fn used_vars_list(s: Seq<NodeView>) -> Result<Seq<Seq<char>>, SemanticErrorView>
    decreases s,
{
    if s.len() == 0 {
        Ok(seq![])
    } else {
        both_used(used_vars_list(s.subrange(0, s.len() - 1)), used_vars(s[s.len() - 1]))
    }
}

/// Once a prefix of a list fails, every longer prefix fails with the same error.
proof fn lemma_error_stays(s: Seq<NodeView>, j: int, k: int)
    requires
        0 <= j <= k <= s.len(),
        used_vars_list(s.take(j)) is Err,
    ensures
        used_vars_list(s.take(k)) == used_vars_list(s.take(j)),
    decreases k - j,
{
    if k > j {
        lemma_error_stays(s, j, k - 1);
        assert(s.take(k).subrange(0, k - 1) =~= s.take(k - 1));
    }
}

/// A list of names, or the error, as values.
pub open spec fn names_result(r: Result<Vec<String>, SemanticError>) -> Result<Seq<Seq<char>>, SemanticErrorView> {
    match r {
        Ok(v) => Ok(names_view(v@)),
        Err(e) => Err(e@),
    }
}

pub(crate) fn copy_string(s: &String) -> (r: String)
    ensures
        r@ == s@,
{
    string_from_chars(&string_chars(s))
}

/// Appends the names of `extra` to `out`.
pub(crate) fn append_names(out: &mut Vec<String>, extra: Vec<String>)
    ensures
        names_view(final(out)@) == names_view(old(out)@) + names_view(extra@),
{
    let mut extra = extra;
    let ghost start = names_view(out@);
    let ghost more = names_view(extra@);
    let mut i: usize = 0;
    while i < extra.len()
        invariant
            i <= extra.len(),
            more == names_view(extra@),
            names_view(out@) == start + more.take(i as int),
        decreases extra.len() - i,
    {
        let s = copy_string(&extra[i]);
        let ghost prev = out@;
        out.push(s);
        assert(names_view(out@) =~= names_view(prev).push(more[i as int]));
        assert(more.take(i + 1) =~= more.take(i as int).push(more[i as int]));
        i = i + 1;
    }
    assert(more.take(extra.len() as int) =~= more);
}

/// The variables a statement declares, as [`new_vars`] gives them.
pub fn get_new_variables(node: &Node) -> (r: Vec<String>)
    ensures
        names_view(r@) == new_vars(node@),
    decreases node,
{
    match &node.kind {
        NodeKind::Identifier { name } => {
            let mut r: Vec<String> = Vec::new();
            r.push(copy_string(name));
            assert(names_view(r@) =~= seq![name@]);
            r
        },
        NodeKind::Assignment { lparam, .. } => get_new_variables(lparam),
        _ => {
            let r: Vec<String> = Vec::new();
            assert(names_view(r@) =~= seq![]);
            r
        },
    }
}

/// The variables a node uses, as [`used_vars`] gives them.
pub fn get_used_variables(node: &Node) -> (r: Result<Vec<String>, SemanticError>)
    ensures
        names_result(r) == used_vars(node@),
    decreases node,
{
    match &node.kind {
        NodeKind::Identifier { name } => {
            let mut r: Vec<String> = Vec::new();
            r.push(copy_string(name));
            assert(names_view(r@) =~= seq![name@]);
            Ok(r)
        },
        NodeKind::Assignment { lparam, rparam } => {
            match is_valid_assignment_lparam(lparam) {
                Err(e) => Err(e),
                Ok(()) => get_used_variables(rparam),
            }
        },
        NodeKind::Operation { lparam, rparam, .. } => match get_used_variables(lparam) {
            Err(e) => Err(e),
            Ok(x) => join_used(x, get_used_variables(rparam)),
        },
        NodeKind::Comparison { lparam, rparam, .. } => match get_used_variables(lparam) {
            Err(e) => Err(e),
            Ok(x) => join_used(x, get_used_variables(rparam)),
        },
        NodeKind::WhileLoop { condition, .. } => get_used_variables(condition),
        NodeKind::IfCondition { condition, .. } => get_used_variables(condition),
        NodeKind::FunctionCall { parameters, .. } => used_by_list(parameters),
        NodeKind::Print { value } => get_used_variables(value),
        NodeKind::Return { value } => get_used_variables(value),
        NodeKind::MemoryOffset { base, offset } => match get_used_variables(base) {
            Err(e) => Err(e),
            Ok(x) => join_used(x, get_used_variables(offset)),
        },
        _ => {
            let r: Vec<String> = Vec::new();
            assert(names_view(r@) =~= seq![]);
            Ok(r)
        },
    }
}

/// The names of `first` followed by those `second` gives, or its error.
fn join_used(first: Vec<String>, second: Result<Vec<String>, SemanticError>) -> (r: Result<
    Vec<String>,
    SemanticError,
>)
    ensures
        names_result(r) == both_used(Ok(names_view(first@)), names_result(second)),
{
    match second {
        Err(e) => Err(e),
        Ok(y) => {
            let mut x = first;
            append_names(&mut x, y);
            Ok(x)
        },
    }
}

fn used_by_list(list: &Vec<Box<Node>>) -> (r: Result<Vec<String>, SemanticError>)
    ensures
        names_result(r) == used_vars_list(block_view(list@)),
    decreases list,
{
    proof {
        lemma_block_view_index(list@);
    }
    let ghost bv = block_view(list@);
    let mut out: Vec<String> = Vec::new();
    let mut i: usize = 0;
    assert(bv.take(0) =~= seq![]);
    assert(names_view(out@) =~= seq![]);
    while i < list.len()
        invariant
            i <= list.len(),
            bv == block_view(list@),
            bv.len() == list.len(),
            forall|k: int| 0 <= k < list.len() ==> bv[k] == (*list@[k])@,
            used_vars_list(bv.take(i as int)) == Ok::<Seq<Seq<char>>, SemanticErrorView>(names_view(out@)),
        decreases list.len() - i,
    {
        assert(bv.take(i + 1).subrange(0, i as int) =~= bv.take(i as int));
        proof {
            assert(decreases_to!(list => list@[i as int]));
        }
        match get_used_variables(&list[i]) {
            Err(e) => {
                proof {
                    lemma_error_stays(bv, i + 1, list.len() as int);
                    assert(bv.take(list.len() as int) =~= bv);
                }
                return Err(e);
            },
            Ok(y) => {
                append_names(&mut out, y);
            },
        }
        i = i + 1;
    }
    assert(bv.take(list.len() as int) =~= bv);
    Ok(out)
}

} // verus!
