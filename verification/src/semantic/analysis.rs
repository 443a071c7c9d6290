//! The analysis of a whole program.
use vstd::prelude::*;

use super::error::{SemanticError, SemanticErrorView};
use super::utils::{append_names, copy_string, get_new_variables, get_used_variables, new_vars, used_vars};
use super::validity::unit_view;
use crate::ast::function::{names_view, FunctionView};
use crate::ast::grammar::name_index;
use crate::ast::node::{block_view, Node, NodeKind, NodeKindView, NodeView};
use crate::ast::table::{lemma_name_index, FunctionTable};
use crate::ast::AST;
use crate::ast::display::lemma_block_view_index;
use crate::machine::instruction::{get_special_variables, special_variables};
use crate::text::{chars_equal, extend_chars, nat_digits, push_nat_digits, str_chars, string_chars, string_from_chars};

verus! {

/// The first of `used` that is not in `scope`, if one is not.
pub open spec fn first_unknown(used: Seq<Seq<char>>, scope: Seq<Seq<char>>) -> Option<Seq<char>>
    decreases used.len(),
{
    if used.len() == 0 {
        None
    } else if !scope.contains(used[0]) {
        Some(used[0])
    } else {
        first_unknown(used.drop_first(), scope)
    }
}

/// A call statement names a defined function and gives it as many arguments as
/// it has parameters.
pub open spec fn call_check(n: NodeView, table: Seq<FunctionView>) -> Result<(), SemanticErrorView> {
    match n.kind {
        NodeKindView::FunctionCall { function_name, parameters } => {
            let k = name_index(table, function_name);
            if k < 0 {
                Err(SemanticErrorView::UnknownFunction("Function "@ + function_name + " is not defined"@))
            } else if parameters.len() != table[k].parameters.len() {
                Err(
                    SemanticErrorView::InvalidFunctionCall(
                        "Function "@ + function_name + " expects "@ + nat_digits(table[k].parameters.len())
                            + " parameters, but got "@ + nat_digits(parameters.len()),
                    ),
                )
            } else {
                Ok(())
            }
        },
        _ => Ok(()),
    }
}

/// The check of the statements of a block from the `i`-th on, with the names
/// in `scope` declared: for each statement in order, the block of a loop or an
/// `if` is checked with the names declared so far, every variable the
/// statement uses must be declared, a call statement must fit a function of
/// `table`, and the names the statement declares are declared for the
/// statements after it. The first error stops the check.
pub open spec fn block_check(
    block: Seq<NodeView>,
    i: int,
    scope: Seq<Seq<char>>,
    table: Seq<FunctionView>,
) -> Result<(), SemanticErrorView>
    decreases block, block.len() - i,
{
    if i < 0 || i >= block.len() {
        Ok(())
    } else {
        let inst = block[i];
        let nested = match inst.kind {
            NodeKindView::WhileLoop { content, .. } => block_check(content, 0, scope, table),
            NodeKindView::IfCondition { content, .. } => block_check(content, 0, scope, table),
            NodeKindView::Loop { content } => block_check(content, 0, scope, table),
            _ => Ok(()),
        };
        match nested {
            Err(e) => Err(e),
            Ok(()) => match used_vars(inst) {
                Err(e) => Err(e),
                Ok(used) => match first_unknown(used, scope) {
                    Some(v) => Err(SemanticErrorView::UnknownVariable(v + " is not in scope"@)),
                    None => match call_check(inst, table) {
                        Err(e) => Err(e),
                        Ok(()) => block_check(block, i + 1, scope + new_vars(inst), table),
                    },
                },
            },
        }
    }
}

/// The check of the functions of a program from the `i`-th on, in order: the
/// statements of each, with the special variables and its parameters declared.
pub open spec fn functions_check(table: Seq<FunctionView>, i: int) -> Result<(), SemanticErrorView>
    decreases table.len() - i,
{
    if i < 0 || i >= table.len() {
        Ok(())
    } else {
        match block_check(table[i].content, 0, special_variables() + table[i].parameters, table) {
            Err(e) => Err(e),
            Ok(()) => functions_check(table, i + 1),
        }
    }
}

/// Whether `name` is one of the names of `scope`.
fn contains_name(scope: &Vec<String>, name: &String) -> (r: bool)
    ensures
        r == names_view(scope@).contains(name@),
{
    let ghost sv = names_view(scope@);
    let n = string_chars(name);
    let mut i: usize = 0;
    while i < scope.len()
        invariant
            i <= scope.len(),
            sv == names_view(scope@),
            n@ == name@,
            forall|k: int| 0 <= k < i ==> sv[k] != name@,
        decreases scope.len() - i,
    {
        if chars_equal(&string_chars(&scope[i]), &n) {
            assert(sv[i as int] == name@);
            return true;
        }
        i = i + 1;
    }
    false
}

/// The first of `used` that is not in `scope`, as [`first_unknown`] gives it.
fn first_missing(used: &Vec<String>, scope: &Vec<String>) -> (r: Option<String>)
    ensures
        match r {
            Some(v) => first_unknown(names_view(used@), names_view(scope@)) == Some(v@),
            None => first_unknown(names_view(used@), names_view(scope@)) is None,
        },
{
    let ghost uv = names_view(used@);
    let ghost sv = names_view(scope@);
    let mut i: usize = 0;
    assert(uv.skip(0) =~= uv);
    while i < used.len()
        invariant
            i <= used.len(),
            uv == names_view(used@),
            sv == names_view(scope@),
            first_unknown(uv, sv) == first_unknown(uv.skip(i as int), sv),
        decreases used.len() - i,
    {
        assert(uv.skip(i as int).drop_first() =~= uv.skip(i + 1));
        if !contains_name(scope, &used[i]) {
            return Some(copy_string(&used[i]));
        }
        i = i + 1;
    }
    None
}

/// The copy of a list of names.
fn copy_names(v: &Vec<String>) -> (r: Vec<String>)
    ensures
        names_view(r@) == names_view(v@),
{
    let mut r: Vec<String> = Vec::new();
    let mut i: usize = 0;
    while i < v.len()
        invariant
            i <= v.len(),
            names_view(r@) == names_view(v@).take(i as int),
        decreases v.len() - i,
    {
        let ghost prev = r@;
        r.push(copy_string(&v[i]));
        assert(names_view(r@) =~= names_view(prev).push(v@[i as int]@));
        assert(names_view(v@).take(i + 1) =~= names_view(v@).take(i as int).push(v@[i as int]@));
        i = i + 1;
    }
    assert(names_view(v@).take(v.len() as int) =~= names_view(v@));
    r
}

/// The check of a call statement, as [`call_check`] gives it.
fn check_call(n: &Node, table: &FunctionTable) -> (r: Result<(), SemanticError>)
    ensures
        unit_view(r) == call_check(n@, table@),
{
    match &n.kind {
        NodeKind::FunctionCall { function_name, parameters } => {
            proof {
                lemma_name_index(table@, function_name@);
                lemma_block_view_index(parameters@);
            }
            match table.get(function_name.as_str()) {
                None => {
                    let mut msg = str_chars("Function ");
                    extend_chars(&mut msg, &string_chars(function_name));
                    extend_chars(&mut msg, &str_chars(" is not defined"));
                    Err(SemanticError::UnknownFunction(string_from_chars(&msg)))
                },
                Some(f) => {
                    let expected = f.parameters.len();
                    if parameters.len() != expected {
                        let mut msg = str_chars("Function ");
                        extend_chars(&mut msg, &string_chars(function_name));
                        extend_chars(&mut msg, &str_chars(" expects "));
                        push_nat_digits(&mut msg, expected as u64);
                        extend_chars(&mut msg, &str_chars(" parameters, but got "));
                        push_nat_digits(&mut msg, parameters.len() as u64);
                        Err(SemanticError::InvalidFunctionCall(string_from_chars(&msg)))
                    } else {
                        Ok(())
                    }
                },
            }
        },
        _ => Ok(()),
    }
}

/// Checks the statements of a block with the names of `scope` declared, as
/// [`block_check`] gives it.
#[verifier::loop_isolation(false)]
fn analyze_block(block: &Vec<Box<Node>>, scope: Vec<String>, table: &FunctionTable) -> (r: Result<
    (),
    SemanticError,
>)
    ensures
        unit_view(r) == block_check(block_view(block@), 0, names_view(scope@), table@),
    decreases block,
{
    proof {
        lemma_block_view_index(block@);
    }
    let ghost bv = block_view(block@);
    let ghost start = names_view(scope@);
    let mut scope = scope;
    let mut i: usize = 0;
    while i < block.len()
        invariant
            i <= block.len(),
            bv == block_view(block@),
            bv.len() == block.len(),
            forall|k: int| 0 <= k < block.len() ==> bv[k] == (*block@[k])@,
            block_check(bv, 0, start, table@) == block_check(bv, i as int, names_view(scope@), table@),
        decreases block.len() - i,
    {
        let inst: &Node = &block[i];
        proof {
            assert(decreases_to!(block => block@[i as int]));
        }
        let nested = match &inst.kind {
            NodeKind::WhileLoop { content, .. } => analyze_block(content, copy_names(&scope), table),
            NodeKind::IfCondition { content, .. } => analyze_block(content, copy_names(&scope), table),
            NodeKind::Loop { content } => analyze_block(content, copy_names(&scope), table),
            _ => Ok(()),
        };
        if let Err(e) = nested {
            return Err(e);
        }
        let used = match get_used_variables(inst) {
            Err(e) => {
                return Err(e);
            },
            Ok(u) => u,
        };
        if let Some(v) = first_missing(&used, &scope) {
            let mut msg = string_chars(&v);
            extend_chars(&mut msg, &str_chars(" is not in scope"));
            return Err(SemanticError::UnknownVariable(string_from_chars(&msg)));
        }
        if let Err(e) = check_call(inst, table) {
            return Err(e);
        }
        let declared = get_new_variables(inst);
        append_names(&mut scope, declared);
        i = i + 1;
    }
    Ok(())
}

/// Analyzes a program for semantic errors, function after function in the
/// order they were defined, as [`functions_check`] gives it: the first error
/// found is returned.
#[verifier::loop_isolation(false)]
pub fn analyze(ast: &AST) -> (r: Result<(), SemanticError>)
    ensures
        unit_view(r) == functions_check(ast.functions@, 0),
{
    let table = &ast.functions;
    let mut i: usize = 0;
    while i < table.len()
        invariant
            i <= table@.len(),
            functions_check(table@, 0) == functions_check(table@, i as int),
        decreases table@.len() - i,
    {
        let f = table.at(i);
        let mut scope = get_special_variables();
        append_names(&mut scope, copy_names(&f.parameters));
        assert(names_view(scope@) =~= special_variables() + f@.parameters);
        if let Err(e) = analyze_block(&f.content, scope, table) {
            return Err(e);
        }
        i = i + 1;
    }
    Ok(())
}


/// The names declared before the `i`-th statement of a block: those of
/// `scope`, then those each earlier statement declares.
pub open spec fn scope_at(block: Seq<NodeView>, i: int, scope: Seq<Seq<char>>) -> Seq<Seq<char>>
    decreases i,
{
    if i <= 0 || i > block.len() {
        scope
    } else {
        scope_at(block, i - 1, scope) + new_vars(block[i - 1])
    }
}

/// When no name of `used` is missing from `scope`, all are in it.
proof fn lemma_none_unknown(used: Seq<Seq<char>>, scope: Seq<Seq<char>>)
    requires
        first_unknown(used, scope) is None,
    ensures
        forall|x: Seq<char>| used.contains(x) ==> scope.contains(x),
    decreases used.len(),
{
    if used.len() > 0 {
        lemma_none_unknown(used.drop_first(), scope);
        assert forall|x: Seq<char>| used.contains(x) implies scope.contains(x) by {
            let k = choose|k: int| 0 <= k < used.len() && used[k] == x;
            if k > 0 {
                assert(used.drop_first()[k - 1] == x);
            }
        }
    }
}

/// A block that passes from its first statement passes from each later one,
/// with the names declared before it.
proof fn lemma_check_from(block: Seq<NodeView>, scope: Seq<Seq<char>>, table: Seq<FunctionView>, i: int)
    requires
        block_check(block, 0, scope, table) is Ok,
        0 <= i <= block.len(),
    ensures
        block_check(block, i, scope_at(block, i, scope), table) is Ok,
    decreases i,
{
    if i > 0 {
        lemma_check_from(block, scope, table, i - 1);
    }
}

/// A block that passes the analysis uses, in each statement, only names
/// declared before it: those of `scope` and those of earlier statements.
pub proof fn lemma_accepted_block_uses_declared(
    block: Seq<NodeView>,
    scope: Seq<Seq<char>>,
    table: Seq<FunctionView>,
    i: int,
)
    requires
        block_check(block, 0, scope, table) is Ok,
        0 <= i < block.len(),
    ensures
        used_vars(block[i]) is Ok,
        forall|x: Seq<char>| #[trigger] used_vars(block[i])->Ok_0.contains(x) ==> scope_at(block, i, scope).contains(x),
        call_check(block[i], table) is Ok,
{
    lemma_check_from(block, scope, table, i);
    let sc = scope_at(block, i, scope);
    if let Ok(used) = used_vars(block[i]) {
        lemma_none_unknown(used, sc);
    }
}

/// In a program that passes the analysis, each statement of each function
/// uses only the special variables, the function's parameters and the names
/// the statements before it declare.
pub proof fn lemma_accepted_program_uses_declared(table: Seq<FunctionView>, f: int, i: int)
    requires
        functions_check(table, 0) is Ok,
        0 <= f < table.len(),
        0 <= i < table[f].content.len(),
    ensures
        used_vars(table[f].content[i]) is Ok,
        forall|x: Seq<char>|
            #[trigger] used_vars(table[f].content[i])->Ok_0.contains(x) ==> scope_at(
                table[f].content,
                i,
                special_variables() + table[f].parameters,
            ).contains(x),
{
    lemma_functions_from(table, f);
    lemma_accepted_block_uses_declared(table[f].content, special_variables() + table[f].parameters, table, i);
}

/// A program that passes from its first function passes each function.
proof fn lemma_functions_from(table: Seq<FunctionView>, f: int)
    requires
        functions_check(table, 0) is Ok,
        0 <= f < table.len(),
    ensures
        functions_check(table, f) is Ok,
        block_check(table[f].content, 0, special_variables() + table[f].parameters, table) is Ok,
    decreases f,
{
    if f > 0 {
        lemma_functions_from(table, f - 1);
    }
}


/// In a program that passes the analysis, no statement of a function assigns
/// to a literal, and every call statement names a defined function with as
/// many arguments as it has parameters.
pub proof fn lemma_accepted_program_is_well_formed(table: Seq<FunctionView>, f: int, i: int)
    requires
        functions_check(table, 0) is Ok,
        0 <= f < table.len(),
        0 <= i < table[f].content.len(),
    ensures
        !(table[f].content[i].kind matches NodeKindView::Assignment { lparam, .. } && lparam.kind is Litteral),
        table[f].content[i].kind matches NodeKindView::FunctionCall { function_name, parameters } ==> ({
            let k = name_index(table, function_name);
            k >= 0 && table[k].parameters.len() == parameters.len()
        }),
{
    lemma_functions_from(table, f);
    lemma_accepted_block_uses_declared(table[f].content, special_variables() + table[f].parameters, table, i);
}

/// The block of a loop or an `if` sees the names declared before it: a
/// `while` loop, an `if` or a `loop` whose condition uses only declared names
/// is accepted exactly when its block, checked alone with the same names
/// declared, is, and with the same error when it is not.
pub proof fn lemma_nested_block_sees_enclosing_scope(
    n: NodeView,
    scope: Seq<Seq<char>>,
    table: Seq<FunctionView>,
)
    requires
        n.kind is WhileLoop || n.kind is IfCondition || n.kind is Loop,
        used_vars(n) matches Ok(u) && first_unknown(u, scope) is None,
    ensures
        block_check(seq![n], 0, scope, table) == block_check(
            match n.kind {
                NodeKindView::WhileLoop { content, .. } => content,
                NodeKindView::IfCondition { content, .. } => content,
                NodeKindView::Loop { content } => content,
                _ => Seq::<NodeView>::empty(),
            },
            0,
            scope,
            table,
        ),
{
    let block = seq![n];
    let body = match n.kind {
        NodeKindView::WhileLoop { content, .. } => content,
        NodeKindView::IfCondition { content, .. } => content,
        NodeKindView::Loop { content } => content,
        _ => Seq::<NodeView>::empty(),
    };
    assert(block[0] == n);
    assert(call_check(n, table) == Ok::<(), SemanticErrorView>(()));
    assert(block_check(block, 1, scope + new_vars(n), table) == Ok::<(), SemanticErrorView>(()));
    match block_check(body, 0, scope, table) {
        Err(e) => {
            assert(block_check(block, 0, scope, table) == Err::<(), SemanticErrorView>(e));
            assert(block_check(block, 0, scope, table) == block_check(body, 0, scope, table));
        },
        Ok(u) => {
            assert(u == ());
            assert(block_check(body, 0, scope, table) == Ok::<(), SemanticErrorView>(()));
            assert(block_check(block, 0, scope, table) == block_check(
                block,
                1,
                scope + new_vars(n),
                table,
            ));
            assert(block_check(block, 0, scope, table) == block_check(body, 0, scope, table));
        },
    }
}

proof fn lemma_block_check_suffix(
    a: Seq<NodeView>,
    b: Seq<NodeView>,
    j: int,
    scope: Seq<Seq<char>>,
    table: Seq<FunctionView>,
)
    requires
        0 <= j <= b.len(),
    ensures
        block_check(a + b, a.len() + j, scope, table) == block_check(b, j, scope, table),
    decreases b.len() - j,
{
    if j < b.len() {
        assert((a + b)[a.len() + j] == b[j]);
        let inst = b[j];
        lemma_block_check_suffix(a, b, j + 1, scope + new_vars(inst), table);
    }
}

/// An assignment to a variable declares it for the statements after it: a
/// block starting with `set x = e`, where `e` uses only declared names, is
/// checked as the rest of the block with `x` declared too.
pub proof fn lemma_assignment_declares(
    n: NodeView,
    rest: Seq<NodeView>,
    scope: Seq<Seq<char>>,
    table: Seq<FunctionView>,
)
    requires
        n.kind is Assignment,
        n.kind->Assignment_lparam.kind is Identifier,
        used_vars(*n.kind->Assignment_rparam) matches Ok(u) && first_unknown(u, scope) is None,
    ensures
        block_check(seq![n] + rest, 0, scope, table) == block_check(
            rest,
            0,
            scope.push(n.kind->Assignment_lparam.kind->Identifier_name),
            table,
        ),
{
    let block = seq![n] + rest;
    let x = n.kind->Assignment_lparam.kind->Identifier_name;
    assert(block[0] == n);
    reveal_with_fuel(new_vars, 2);
    assert(new_vars(n) == seq![x]);
    assert(scope + new_vars(n) =~= scope.push(x));
    lemma_block_check_suffix(seq![n], rest, 0, scope.push(x), table);
    assert(block_check(block, 0, scope, table) == block_check(block, 1, scope.push(x), table));
}

} // verus!
