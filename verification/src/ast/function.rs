//! Functions of an AFG program.
use vstd::prelude::*;

use super::node::{block_view, Node, NodeView};

verus! {

/// A function: its name, the names of its parameters and its statements.
#[derive(Debug)]
pub struct Function {
    pub name: String,
    pub parameters: Vec<String>,
    pub content: Vec<Box<Node>>,
}

/// The mathematical value of a [`Function`].
pub struct FunctionView {
    pub name: Seq<char>,
    pub parameters: Seq<Seq<char>>,
    pub content: Seq<NodeView>,
}

/// The names held by a list of strings.
pub open spec fn names_view(s: Seq<String>) -> Seq<Seq<char>> {
    s.map_values(|x: String| x@)
}

impl View for Function {
    type V = FunctionView;

    open spec fn view(&self) -> FunctionView {
        FunctionView {
            name: self.name@,
            parameters: names_view(self.parameters@),
            content: block_view(self.content@),
        }
    }
}

impl Function {
    /// A function with the given name, no parameter and no statement.
    pub fn new(name: String) -> (r: Function)
        ensures
            r@ == (FunctionView { name: name@, parameters: seq![], content: seq![] }),
    {
        let r = Function { name, parameters: Vec::new(), content: Vec::new() };
        assert(names_view(r.parameters@) =~= seq![]);
        r
    }
}

} // verus!
