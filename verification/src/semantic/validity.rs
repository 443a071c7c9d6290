//! What may stand on the left of an assignment.
use vstd::prelude::*;

use super::error::{SemanticError, SemanticErrorView};
use crate::ast::node::{Node, NodeKind, NodeKindView, NodeView};
use crate::text::{extend_chars, int_chars, push_int_chars, str_chars, string_from_chars};

verus! {

/// A literal cannot be assigned to; anything else can.
pub open spec fn lparam_check(n: NodeView) -> Result<(), SemanticErrorView> {
    match n.kind {
        NodeKindView::Litteral { value } => Err(
            SemanticErrorView::InvalidOperation(
                int_chars(value as int) + " is not a valid lparam for an assignment"@,
            ),
        ),
        _ => Ok(()),
    }
}

/// The error of a result, as a value.
pub open spec fn unit_view(r: Result<(), SemanticError>) -> Result<(), SemanticErrorView> {
    match r {
        Ok(()) => Ok(()),
        Err(e) => Err(e@),
    }
}

/// Checks that the left side of an assignment is not a literal.
pub fn is_valid_assignment_lparam(node: &Node) -> (r: Result<(), SemanticError>)
    ensures
        unit_view(r) == lparam_check(node@),
{
    match &node.kind {
        NodeKind::Litteral { value } => {
            let mut msg: Vec<char> = Vec::new();
            push_int_chars(&mut msg, *value as i64);
            extend_chars(&mut msg, &str_chars(" is not a valid lparam for an assignment"));
            Err(SemanticError::InvalidOperation(string_from_chars(&msg)))
        },
        _ => Ok(()),
    }
}

} // verus!
