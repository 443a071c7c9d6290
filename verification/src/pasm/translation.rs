//! The translation of statements into pseudo-assembly.
//!
//! Labels and temporary variables are named `temp_<pattern>_<n>`, `n` being
//! taken from a counter that every new name advances (wrapping around at the
//! end of `usize`). Each translation states the instructions it gives, or
//! the reason it gives none, and the counter after it.
use vstd::prelude::*;

use super::assignment::{
    identifier, imm_to_imm_spec, imm_to_mem_spec, immediate_of, instrs_result, mem_to_imm_spec,
    mem_to_mem_spec, memory_of, op_to_spec, operation_opcode, reg_node, register, Instrs,
};
use super::assignment::{
    append_instrs, ensure_immediate, ensure_memory, imm_to_imm, imm_to_mem, instr0, instr1, instr2,
    mem_to_imm, mem_to_mem, no_instrs,
    op_to_imm, op_to_mem, operand_result, prepared_result, push_instr, reg, reg_node_of,
};
use super::instruction::{instrs_view, label, op, InstrView, PASMInstruction};
use super::operand_type::{OperandType, OperandView};
use crate::ast::display::lemma_block_view_index;
use crate::ast::node::{block_view, ComparisonType, Node, NodeKind, NodeKindView, NodeView, OperationType};
use crate::lexer::token::TokenLocation;
use crate::machine::parser::{lemma_jump_mnemonics, opcode_named};
use crate::machine::step::jump_taken;
use crate::text::{
    extend_chars, nat_digits, push_nat_digits, str_chars, string_chars, string_from_chars,
    to_owned_string,
};

verus! {

/// Instructions or an error, and the counter after them.
pub type Gen = (Instrs, usize);

/// The counter after one more name.
pub open spec fn next_counter(c: usize) -> usize {
    if c == usize::MAX {
        0
    } else {
        (c + 1) as usize
    }
}

/// The name `temp_<pattern>_<c>`.
pub open spec fn temp_name(pattern: Seq<char>, c: usize) -> Seq<char> {
    "temp_"@ + pattern + "_"@ + nat_digits(c as nat)
}

/// The number of nodes of a tree.
pub open spec fn node_size(n: NodeView) -> nat
    decreases n,
{
    1 + match n.kind {
        NodeKindView::MemoryOffset { base, offset } => node_size(*base) + node_size(*offset),
        NodeKindView::Assignment { lparam, rparam } => node_size(*lparam) + node_size(*rparam),
        NodeKindView::Operation { lparam, rparam, .. } => node_size(*lparam) + node_size(*rparam),
        NodeKindView::Print { value } => node_size(*value),
        NodeKindView::Comparison { lparam, rparam, .. } => node_size(*lparam) + node_size(*rparam),
        NodeKindView::WhileLoop { condition, content } => node_size(*condition) + sizes(content),
        NodeKindView::Loop { content } => sizes(content),
        NodeKindView::IfCondition { condition, content } => node_size(*condition) + sizes(content),
        NodeKindView::FunctionCall { parameters, .. } => sizes(parameters),
        NodeKindView::Return { value } => node_size(*value),
        _ => 0,
    }
}

/// The number of nodes of a list of trees.
pub open spec fn sizes(s: Seq<NodeView>) -> nat
    decreases s,
{
    if s.len() == 0 {
        0
    } else {
        sizes(s.subrange(0, s.len() - 1)) + node_size(s[s.len() - 1])
    }
}

/// `pre` before the instructions of `g`.
pub open spec fn after(pre: Seq<InstrView>, g: Gen) -> Gen {
    match g.0 {
        Ok(i) => (Ok(pre + i), g.1),
        Err(e) => (Err(e), g.1),
    }
}

/// The instructions with `span` given to those that have none.
pub open spec fn tag(s: Seq<InstrView>, span: Option<TokenLocation>) -> Seq<InstrView> {
    s.map_values(
        |i: InstrView|
            if i.span is None {
                InstrView { span, ..i }
            } else {
                i
            },
    )
}

pub open spec fn load_base_spec(base: NodeView) -> Instrs {
    match base.kind {
        NodeKindView::Identifier { name } => Ok(
            seq![op("mov"@, seq![register("GPC"@), identifier(name)])],
        ),
        _ => Err("base should be an identifier"@),
    }
}

pub open spec fn offset_operand(n: NodeView) -> Result<OperandView, Seq<char>> {
    match n.kind {
        NodeKindView::Register { name } => Ok(register(name)),
        NodeKindView::Identifier { name } => Ok(identifier(name)),
        NodeKindView::Litteral { value } => Ok(OperandView::Literal { value }),
        _ => Err(
            "(OpToAsm) Invalid memory offset. Memory offset should be either a literal, identifier or register."@,
        ),
    }
}

/// The operation computed into `GPA`: the left operand assigned to `GPA`,
/// then the operation applied with the right operand (a variable being first
/// copied into a new temporary).
pub open spec fn operation_gen(operation: OperationType, l: NodeView, r: NodeView, c: usize) -> (
    Result<(OperandView, Seq<InstrView>), Seq<char>>,
    usize,
)
    decreases node_size(l) + node_size(r) + 1, 1nat,
{
    let gpa = register("GPA"@);
    let opc = operation_opcode(operation);
    let (a, c1) = assignment_gen(reg_node("GPA"@), l, c);
    match a {
        Err(e) => (Err(e), c1),
        Ok(i1) => if r.kind is Identifier {
            let temp = temp_name("oprpar"@, c1);
            let (a2, c3) = assignment_gen(
                NodeView { kind: NodeKindView::Identifier { name: temp }, span: None },
                r,
                next_counter(c1),
            );
            match a2 {
                Err(e) => (Err(e), c3),
                Ok(i2) => (Ok((gpa, (i1 + i2).push(op(opc, seq![gpa, identifier(temp)])))), c3),
            }
        } else {
            match rparam_operand(r) {
                Err(e) => (Err(e), c1),
                Ok((o, i2)) => (Ok((gpa, (i1 + i2).push(op(opc, seq![gpa, o])))), c1),
            }
        },
    }
}

/// The right operand of an operation, when it is no variable: a memory value,
/// a literal, or a memory access whose base is first moved into `GPC`.
pub open spec fn rparam_operand(r: NodeView) -> Result<(OperandView, Seq<InstrView>), Seq<char>> {
    match r.kind {
        NodeKindView::MemoryValue { name } => Ok((OperandView::Memory { name }, seq![])),
        NodeKindView::Litteral { value } => Ok((OperandView::Literal { value }, seq![])),
        NodeKindView::MemoryOffset { base, offset } => match load_base_spec(*base) {
            Err(e) => Err(e),
            Ok(i) => match offset_operand(*offset) {
                Err(e) => Err(e),
                Ok(off) => Ok(
                    (
                        OperandView::MemoryOffset {
                            base: Box::new(register("GPC"@)),
                            offset: Box::new(off),
                        },
                        i,
                    ),
                ),
            },
        },
        _ => Err("lparam of operation should be either a literal or an identifier"@),
    }
}

pub open spec fn is_immediate(n: NodeView) -> bool {
    n.kind is Identifier || n.kind is Register || n.kind is Litteral
}

pub open spec fn is_memory(n: NodeView) -> bool {
    n.kind is MemoryValue || n.kind is MemoryOffset
}

/// `assignee = assignant`, by the kinds of both sides: between immediates and
/// memory directly, an operation through `GPA`, a call through `FRV`.
pub open spec fn assignment_gen(assignee: NodeView, assignant: NodeView, c: usize) -> Gen
    decreases node_size(assignant) + 1, 2nat,
{
    let assignee_variable = assignee.kind is Identifier || assignee.kind is Register;
    if is_immediate(assignant) && is_immediate(assignee) {
        (imm_to_imm_spec(assignant, assignee), c)
    } else if is_memory(assignant) && is_immediate(assignee) {
        (mem_to_imm_spec(assignant, assignee), c)
    } else if is_immediate(assignant) && is_memory(assignee) {
        (imm_to_mem_spec(assignant, assignee), c)
    } else if is_memory(assignant) && is_memory(assignee) {
        (mem_to_mem_spec(assignant, assignee), c)
    } else if assignant.kind is Operation && assignee_variable {
        (op_to_spec(assignant, assignee, false), c)
    } else if assignant.kind is Operation && is_memory(assignee) {
        (op_to_spec(assignant, assignee, true), c)
    } else if assignant.kind is FunctionCall && (assignee_variable || is_memory(assignee)) {
        let (f, c1) = function_gen(
            assignant.kind->FunctionCall_function_name,
            assignant.kind->FunctionCall_parameters,
            c,
        );
        match f {
            Err(e) => (Err(e), c1),
            Ok(i) => {
                let store = if assignee_variable {
                    imm_to_imm_spec(reg_node("FRV"@), assignee)
                } else {
                    imm_to_mem_spec(reg_node("FRV"@), assignee)
                };
                match store {
                    Ok(j) => (Ok(i + j), c1),
                    Err(e) => (Err(e), c1),
                }
            },
        }
    } else {
        (Err("Not implemented"@), c)
    }
}

/// A call: the arguments pushed last first, the call, and the stack pointer
/// moved back over the arguments.
pub open spec fn function_gen(name: Seq<char>, params: Seq<NodeView>, c: usize) -> Gen
    decreases sizes(params) + 1, 1nat,
{
    let (p, c1) = params_gen(params, c);
    match p {
        Err(e) => (Err(e), c1),
        Ok(i) => (
            Ok(
                i.push(op("call"@, seq![identifier("function_"@ + name + "_label"@)])).push(
                    op(
                        "add"@,
                        seq![register("TSP"@), OperandView::Literal { value: params.len() as i32 }],
                    ),
                ),
            ),
            c1,
        ),
    }
}

/// The push of one argument: a variable, a literal, or an operation computed
/// first.
pub open spec fn param_gen(p: NodeView, c: usize) -> Gen
    decreases node_size(p), 2nat,
{
    match p.kind {
        NodeKindView::Identifier { name } => (Ok(seq![op("push"@, seq![identifier(name)])]), c),
        NodeKindView::Litteral { value } => (
            Ok(seq![op("push"@, seq![OperandView::Literal { value }])]),
            c,
        ),
        NodeKindView::Operation { lparam, rparam, operation } => {
            let (o, c1) = operation_gen(operation, *lparam, *rparam, c);
            match o {
                Err(e) => (Err(e), c1),
                Ok((temp, i)) => (Ok(i.push(op("push"@, seq![temp]))), c1),
            }
        },
        _ => (
            Err(
                "Invalid value in function call, only identifiers, literals and operations are allowed"@,
            ),
            c,
        ),
    }
}

/// The pushes of the arguments, from the last to the first.
pub open spec fn params_gen(s: Seq<NodeView>, c: usize) -> Gen
    decreases sizes(s), 3nat,
{
    if s.len() == 0 {
        (Ok(seq![]), c)
    } else {
        proof {
            assert(sizes(s) == sizes(s.subrange(0, s.len() - 1)) + node_size(s[s.len() - 1]));
            assert(node_size(s[s.len() - 1]) >= 1);
        }
        let (first, c1) = param_gen(s[s.len() - 1], c);
        match first {
            Err(e) => (Err(e), c1),
            Ok(i1) => after(i1, params_gen(s.subrange(0, s.len() - 1), c1)),
        }
    }
}

/// The register that holds one side of a comparison, with the instructions
/// that load it (into `reg` unless it is a register already).
pub open spec fn compared_operand(n: NodeView, reg: Seq<char>, error: Seq<char>) -> Result<
    (OperandView, Seq<InstrView>),
    Seq<char>,
> {
    match n.kind {
        NodeKindView::Register { name } => Ok((register(name), seq![])),
        NodeKindView::Identifier { .. } | NodeKindView::Litteral { .. } => match imm_to_imm_spec(
            n,
            reg_node(reg),
        ) {
            Ok(i) => Ok((register(reg), i)),
            Err(e) => Err(e),
        },
        NodeKindView::MemoryOffset { .. } | NodeKindView::MemoryValue { .. } => match mem_to_imm_spec(
            n,
            reg_node(reg),
        ) {
            Ok(i) => Ok((register(reg), i)),
            Err(e) => Err(e),
        },
        _ => Err(error),
    }
}

/// The comparisons and jumps that leave for `to` when the comparison fails.
pub open spec fn comparison_jumps(
    lo: OperandView,
    ro: OperandView,
    comparison: ComparisonType,
    to: Seq<char>,
) -> Seq<InstrView> {
    let cmp = op("cmp"@, seq![lo, ro]);
    let jump = |j: Seq<char>| op(j, seq![identifier(to)]);
    match comparison {
        ComparisonType::EQ => seq![cmp, jump("jnz"@)],
        ComparisonType::DIFF => seq![cmp, jump("jz"@)],
        ComparisonType::GE => seq![cmp, jump("jn"@)],
        ComparisonType::GT => seq![cmp, jump("jn"@), cmp, jump("jz"@)],
        ComparisonType::LT => seq![cmp, jump("jp"@), op("cmp"@, seq![ro, lo]), jump("jz"@)],
        ComparisonType::LE => seq![cmp, jump("jp"@)],
    }
}

/// A comparison that jumps to `to` when it does not hold.
pub open spec fn comparison_gen(l: NodeView, r: NodeView, comparison: ComparisonType, to: Seq<char>) -> Instrs {
    match compared_operand(l, "GPA"@, "Invalid lparam for comparison"@) {
        Err(e) => Err(e),
        Ok((lo, li)) => match compared_operand(r, "GPB"@, "Invalid rparam for comparison"@) {
            Err(e) => Err(e),
            Ok((ro, ri)) => Ok(li + ri + comparison_jumps(lo, ro, comparison, to)),
        },
    }
}

/// The test of a condition, jumping to `next_label` when it fails: a
/// comparison, or a variable or literal compared with 0 (a literal being
/// first copied into a new temporary).
pub open spec fn condition_gen(cond: NodeView, next_label: Seq<char>, c: usize) -> Gen {
    match cond.kind {
        NodeKindView::Comparison { lparam, rparam, comparison } => (
            comparison_gen(*lparam, *rparam, comparison, next_label),
            c,
        ),
        NodeKindView::Identifier { name } => (
            Ok(
                seq![
                    op("cmp"@, seq![identifier(name), OperandView::Literal { value: 0 }]),
                    op("jz"@, seq![identifier(next_label)]),
                ],
            ),
            c,
        ),
        NodeKindView::Litteral { value } => {
            let t = temp_name("cp"@, c);
            (
                Ok(
                    seq![
                        op("mov"@, seq![identifier(t), OperandView::Literal { value }]),
                        op("cmp"@, seq![identifier(t), OperandView::Literal { value: 0 }]),
                        op("jz"@, seq![identifier(next_label)]),
                    ],
                ),
                next_counter(c),
            )
        },
        _ => (Err("Unexpected ast node for if condition"@), c),
    }
}

/// A condition and its block: the test jumps past the block when it fails;
/// without a given exit label, a new one is made and placed after the block.
pub open spec fn if_gen(cond: NodeView, content: Seq<NodeView>, exit: Option<Seq<char>>, c: usize) -> Gen
    decreases node_size(cond) + sizes(content) + 1, 1nat,
{
    let (next_label, c1) = match exit {
        Some(v) => (v, c),
        None => (temp_name("if_exit"@, c), next_counter(c)),
    };
    let (test, c2) = condition_gen(cond, next_label, c1);
    match test {
        Err(e) => (Err(e), c2),
        Ok(i1) => {
            let (b, c3) = block_gen(content, c2);
            match b {
                Err(e) => (Err(e), c3),
                Ok(i2) => (
                    Ok(
                        if exit is None {
                            (i1 + i2).push(label(next_label))
                        } else {
                            i1 + i2
                        },
                    ),
                    c3,
                ),
            }
        },
    }
}

/// A while loop: a label before the test, the test and block jumping to a
/// label after the loop, and a jump back.
pub open spec fn while_gen(cond: NodeView, content: Seq<NodeView>, c: usize) -> Gen
    decreases node_size(cond) + sizes(content) + 1, 2nat,
{
    let before = temp_name("while_condition"@, c);
    let c1 = next_counter(c);
    let exit = temp_name("while_exit"@, c1);
    let (r, c3) = if_gen(cond, content, Some(exit), next_counter(c1));
    match r {
        Err(e) => (Err(e), c3),
        Ok(i) => (
            Ok(seq![label(before)] + i + seq![op("jmp"@, seq![identifier(before)]), label(exit)]),
            c3,
        ),
    }
}

/// An endless loop: a label, the block, and a jump back.
pub open spec fn loop_gen(content: Seq<NodeView>, c: usize) -> Gen
    decreases sizes(content) + 1, 2nat,
{
    let l = temp_name("loop_label"@, c);
    let (r, c2) = block_gen(content, next_counter(c));
    match r {
        Err(e) => (Err(e), c2),
        Ok(i) => (Ok(seq![label(l)] + i + seq![op("jmp"@, seq![identifier(l)])]), c2),
    }
}

/// The statements of a block, in order.
pub open spec fn block_gen(s: Seq<NodeView>, c: usize) -> Gen
    decreases sizes(s), 4nat,
{
    if s.len() == 0 {
        (Ok(seq![]), c)
    } else {
        proof {
            assert(sizes(s) == sizes(s.subrange(0, s.len() - 1)) + node_size(s[s.len() - 1]));
            assert(node_size(s[s.len() - 1]) >= 1);
        }
        let (r1, c1) = block_gen(s.subrange(0, s.len() - 1), c);
        match r1 {
            Err(e) => (Err(e), c1),
            Ok(i1) => after(i1, inst_gen(s[s.len() - 1], c1)),
        }
    }
}

/// A return: the value into `FRV`, the stack and base pointers restored, `ret`.
pub open spec fn ret_gen(value: NodeView) -> Instrs {
    let first = match value.kind {
        NodeKindView::MemoryValue { name } => Ok(op("load"@, seq![register("FRV"@), identifier(name)])),
        NodeKindView::Identifier { name } => Ok(op("mov"@, seq![register("FRV"@), identifier(name)])),
        NodeKindView::Litteral { value } => Ok(
            op("mov"@, seq![register("FRV"@), OperandView::Literal { value }]),
        ),
        _ => Err("Invalid return value"@),
    };
    match first {
        Err(e) => Err(e),
        Ok(f) => Ok(
            seq![
                f,
                op("mov"@, seq![register("TSP"@), register("SBP"@)]),
                op("pop"@, seq![register("SBP"@)]),
                op("ret"@, seq![]),
            ],
        ),
    }
}

/// A print of a variable, a literal or a memory location.
pub open spec fn print_gen(value: NodeView) -> Instrs {
    if value.kind is Identifier || value.kind is Litteral {
        match immediate_of(value) {
            Ok(o) => Ok(seq![op("print"@, seq![o])]),
            Err(e) => Err(e),
        }
    } else if is_memory(value) {
        match memory_of(value) {
            Ok((o, prep)) => Ok(prep.push(op("print"@, seq![o]))),
            Err(e) => Err(e),
        }
    } else {
        Err("Invalid value to print"@)
    }
}

/// A statement; its instructions carry its location when they have none.
pub open spec fn inst_gen(n: NodeView, c: usize) -> Gen
    decreases node_size(n), 3nat,
{
    let (r, c1) = match n.kind {
        NodeKindView::Assignment { lparam, rparam } => assignment_gen(*lparam, *rparam, c),
        NodeKindView::IfCondition { condition, content } => if_gen(*condition, content, None, c),
        NodeKindView::Loop { content } => loop_gen(content, c),
        NodeKindView::WhileLoop { condition, content } => while_gen(*condition, content, c),
        NodeKindView::Print { value } => (print_gen(*value), c),
        NodeKindView::FunctionCall { function_name, parameters } => function_gen(
            function_name,
            parameters,
            c,
        ),
        NodeKindView::Return { value } => (ret_gen(*value), c),
        _ => (Err("Not implemented"@), c),
    };
    match r {
        Ok(i) => (Ok(tag(i, n.span)), c1),
        Err(e) => (Err(e), c1),
    }
}

// ---------------------------------------------------------------------------
// Translation
// ---------------------------------------------------------------------------

/// Whether an executable translation result, and the counter after it, are
/// those the spec gives.
pub open spec fn gen_result(r: Result<Vec<PASMInstruction>, String>, c: usize, g: Gen) -> bool {
    instrs_result(r, g.0) && c == g.1
}

pub proof fn lemma_sizes(s: Seq<NodeView>, i: int)
    requires
        0 <= i < s.len(),
    ensures
        node_size(s[i]) <= sizes(s),
        sizes(s.take(i)) + node_size(s[i]) <= sizes(s),
    decreases s.len(),
{
    assert(s.subrange(0, s.len() - 1) =~= s.take(s.len() - 1));
    if i < s.len() - 1 {
        lemma_sizes(s.subrange(0, s.len() - 1), i);
        assert(s.subrange(0, s.len() - 1).take(i) =~= s.take(i));
    } else {
        assert(s.take(i) =~= s.subrange(0, s.len() - 1));
    }
}

/// A new name `temp_<pattern>_<counter>`; the counter moves on.
pub fn create_temp_variable_name(pattern: &str, counter: &mut usize) -> (r: String)
    ensures
        r@ == temp_name(pattern@, *old(counter)),
        *final(counter) == next_counter(*old(counter)),
{
    let mut out = str_chars("temp_");
    extend_chars(&mut out, &str_chars(pattern));
    out.push('_');
    push_nat_digits(&mut out, *counter as u64);
    proof {
        reveal_strlit("_");
    }
    assert(out@ == temp_name(pattern@, *old(counter)));
    if *counter == usize::MAX {
        *counter = 0;
    } else {
        *counter = *counter + 1;
    }
    string_from_chars(&out)
}

/// Gives `span` to the instructions that have no location.
pub fn tag_instructions_with_span(instructions: Vec<PASMInstruction>, span: Option<TokenLocation>) -> (r:
    Vec<PASMInstruction>)
    ensures
        instrs_view(r@) == tag(instrs_view(instructions@), span),
{
    let ghost iv = instructions@;
    let mut out: Vec<PASMInstruction> = Vec::new();
    for inst in it: instructions.into_iter()
        invariant
            it.seq() == iv,
            instrs_view(out@) == tag(instrs_view(iv.take(it.index() as int)), span),
    {
        let ghost k = it.index() as int;
        assert(inst == iv[k]);
        let mut inst = inst;
        if inst.span.is_none() {
            inst.span = span;
        }
        let ghost before = out@;
        let ghost iv_k = iv[k]@;
        assert(inst@ == (if iv_k.span is None {
            InstrView { span, ..iv_k }
        } else {
            iv_k
        }));
        out.push(inst);
        assert(instrs_view(iv.take(k + 1)) =~= instrs_view(iv.take(k)).push(iv[k]@));
        assert(tag(instrs_view(iv.take(k + 1)), span) =~= tag(instrs_view(iv.take(k)), span).push(
            inst@,
        ));
        assert(instrs_view(out@) =~= instrs_view(before).push(inst@));
    }
    assert(iv.take(iv.len() as int) =~= iv);
    out
}

/// Moves the base variable of a memory access into `GPC`.
fn load_base(base: &Node) -> (r: Result<Vec<PASMInstruction>, String>)
    ensures
        instrs_result(r, load_base_spec(base@)),
{
    match &base.kind {
        NodeKind::Identifier { name } => {
            let mut v = no_instrs();
            push_instr(&mut v, instr2("mov", reg("GPC"), OperandType::Identifier { name: name.clone() }));
            assert(instrs_view(v@) =~= seq![op("mov"@, seq![register("GPC"@), identifier(name@)])]);
            Ok(v)
        },
        _ => Err(to_owned_string("base should be an identifier")),
    }
}

/// The operation computed into `GPA`.
fn operation_to_asm(
    operation: OperationType,
    lparam: &Node,
    rparam: &Node,
    counter: &mut usize,
) -> (r: Result<(OperandType, Vec<PASMInstruction>), String>)
    ensures
        prepared_result(r, operation_gen(operation, lparam@, rparam@, *old(counter)).0),
        *final(counter) == operation_gen(operation, lparam@, rparam@, *old(counter)).1,
    decreases node_size(lparam@) + node_size(rparam@) + 1, 1nat,
{
    let opc = operation_opcode_str(operation);
    let gpa_node = reg_node_of("GPA");
    let mut instructions = match assignment_to_asm(&gpa_node, lparam, counter) {
        Ok(i) => i,
        Err(e) => {
            return Err(e);
        },
    };
    let is_variable = match &rparam.kind {
        NodeKind::Identifier { .. } => true,
        _ => false,
    };
    let new_rparam = if is_variable {
        let temp = create_temp_variable_name("oprpar", counter);
        proof {
            reveal_strlit("temp_");
        }
        assert(temp@[0] == 't');
        let target = Node { kind: NodeKind::new_identifier(temp.clone()), span: None };
        assert(target@ == (NodeView { kind: NodeKindView::Identifier { name: temp@ }, span: None }));
        match assignment_to_asm(&target, rparam, counter) {
            Ok(i) => append_instrs(&mut instructions, i),
            Err(e) => {
                return Err(e);
            },
        }
        OperandType::Identifier { name: temp }
    } else {
        match rparam_to_operand(rparam) {
            Ok((o, i)) => {
                append_instrs(&mut instructions, i);
                o
            },
            Err(e) => {
                return Err(e);
            },
        }
    };
    push_instr(&mut instructions, instr2(opc, reg("GPA"), new_rparam));
    Ok((reg("GPA"), instructions))
}

fn rparam_to_operand(r: &Node) -> (res: Result<(OperandType, Vec<PASMInstruction>), String>)
    ensures
        prepared_result(res, rparam_operand(r@)),
{
    match &r.kind {
        NodeKind::MemoryValue { name } => Ok((OperandType::Memory { name: name.clone() }, no_instrs())),
        NodeKind::Litteral { value } => Ok((OperandType::Literal { value: *value }, no_instrs())),
        NodeKind::MemoryOffset { base, offset } => {
            let i = match load_base(base) {
                Ok(i) => i,
                Err(e) => {
                    return Err(e);
                },
            };
            let off = match offset_to_operand(offset) {
                Ok(o) => o,
                Err(e) => {
                    return Err(e);
                },
            };
            let ghost offv = off@;
            let gpc = reg("GPC");
            let m = OperandType::MemoryOffset { base: Box::new(gpc), offset: Box::new(off) };
            assert(m@ == (OperandView::MemoryOffset {
                base: Box::new(register("GPC"@)),
                offset: Box::new(offv),
            }));
            Ok((m, i))
        },
        _ => Err(to_owned_string("lparam of operation should be either a literal or an identifier")),
    }
}

fn offset_to_operand(n: &Node) -> (r: Result<OperandType, String>)
    ensures
        operand_result(r, offset_operand(n@)),
{
    match &n.kind {
        NodeKind::Register { name } => Ok(OperandType::Register { name: name.clone() }),
        NodeKind::Identifier { name } => Ok(OperandType::Identifier { name: name.clone() }),
        NodeKind::Litteral { value } => Ok(OperandType::Literal { value: *value }),
        _ => Err(
            to_owned_string(
                "(OpToAsm) Invalid memory offset. Memory offset should be either a literal, identifier or register.",
            ),
        ),
    }
}

fn operation_opcode_str(operation: OperationType) -> (r: &'static str)
    ensures
        r@ == operation_opcode(operation),
{
    match operation {
        OperationType::Addition => "add",
        OperationType::Substraction => "sub",
        OperationType::Multiplication => "mul",
        OperationType::Division => "div",
        OperationType::Modulo => "mod",
    }
}

fn is_immediate_node(n: &Node) -> (r: bool)
    ensures
        r == is_immediate(n@),
{
    match &n.kind {
        NodeKind::Identifier { .. } | NodeKind::Register { .. } | NodeKind::Litteral { .. } => true,
        _ => false,
    }
}

fn is_memory_node(n: &Node) -> (r: bool)
    ensures
        r == is_memory(n@),
{
    match &n.kind {
        NodeKind::MemoryValue { .. } | NodeKind::MemoryOffset { .. } => true,
        _ => false,
    }
}

/// `assignee = assignant`.
fn assignment_to_asm(assignee: &Node, assignant: &Node, counter: &mut usize) -> (r: Result<
    Vec<PASMInstruction>,
    String,
>)
    ensures
        gen_result(r, *final(counter), assignment_gen(assignee@, assignant@, *old(counter))),
    decreases node_size(assignant@) + 1, 2nat,
{
    let assignee_variable = match &assignee.kind {
        NodeKind::Identifier { .. } | NodeKind::Register { .. } => true,
        _ => false,
    };
    if is_immediate_node(assignant) && is_immediate_node(assignee) {
        imm_to_imm(assignant, assignee)
    } else if is_memory_node(assignant) && is_immediate_node(assignee) {
        mem_to_imm(assignant, assignee)
    } else if is_immediate_node(assignant) && is_memory_node(assignee) {
        imm_to_mem(assignant, assignee)
    } else if is_memory_node(assignant) && is_memory_node(assignee) {
        mem_to_mem(assignant, assignee)
    } else {
        match &assignant.kind {
            NodeKind::Operation { .. } => {
                if assignee_variable {
                    op_to_imm(assignant, assignee)
                } else if is_memory_node(assignee) {
                    op_to_mem(assignant, assignee)
                } else {
                    Err(to_owned_string("Not implemented"))
                }
            },
            NodeKind::FunctionCall { function_name, parameters } => {
                if assignee_variable || is_memory_node(assignee) {
                    let mut instructions = match function_to_asm(function_name, parameters, counter) {
                        Ok(i) => i,
                        Err(e) => {
                            return Err(e);
                        },
                    };
                    let frv = reg_node_of("FRV");
                    let store = if assignee_variable {
                        imm_to_imm(&frv, assignee)
                    } else {
                        imm_to_mem(&frv, assignee)
                    };
                    match store {
                        Ok(j) => {
                            append_instrs(&mut instructions, j);
                            Ok(instructions)
                        },
                        Err(e) => Err(e),
                    }
                } else {
                    Err(to_owned_string("Not implemented"))
                }
            },
            _ => Err(to_owned_string("Not implemented")),
        }
    }
}

pub proof fn lemma_after_assoc(a: Seq<InstrView>, b: Seq<InstrView>, g: Gen)
    ensures
        after(a, after(b, g)) == after(a + b, g),
{
    if g.0 is Ok {
        assert(a + (b + g.0->Ok_0) =~= (a + b) + g.0->Ok_0);
    }
}

/// The push of one argument.
fn parameter_to_asm(p: &Node, counter: &mut usize) -> (r: Result<Vec<PASMInstruction>, String>)
    ensures
        gen_result(r, *final(counter), param_gen(p@, *old(counter))),
    decreases node_size(p@), 2nat,
{
    let mut instructions = no_instrs();
    match &p.kind {
        NodeKind::Identifier { name } => {
            push_instr(&mut instructions, instr1("push", OperandType::Identifier { name: name.clone() }));
        },
        NodeKind::Litteral { value } => {
            push_instr(&mut instructions, instr1("push", OperandType::Literal { value: *value }));
        },
        NodeKind::Operation { lparam, rparam, operation } => {
            let (temp, i) = match operation_to_asm(*operation, lparam, rparam, counter) {
                Ok(x) => x,
                Err(e) => {
                    return Err(e);
                },
            };
            append_instrs(&mut instructions, i);
            push_instr(&mut instructions, instr1("push", temp));
        },
        _ => {
            return Err(
                to_owned_string(
                    "Invalid value in function call, only identifiers, literals and operations are allowed",
                ),
            );
        },
    }
    Ok(instructions)
}

/// A call of `function_name` with `parameters`.
fn function_to_asm(function_name: &String, parameters: &Vec<Box<Node>>, counter: &mut usize) -> (r:
    Result<Vec<PASMInstruction>, String>)
    ensures
        gen_result(
            r,
            *final(counter),
            function_gen(function_name@, block_view(parameters@), *old(counter)),
        ),
    decreases sizes(block_view(parameters@)) + 1, 1nat,
{
    proof {
        lemma_block_view_index(parameters@);
    }
    let ghost bv = block_view(parameters@);
    let ghost c0 = *counter;
    let mut instructions = no_instrs();
    let mut j = parameters.len();
    assert(bv.take(j as int) =~= bv);
    while j > 0
        invariant
            j <= parameters.len(),
            bv == block_view(parameters@),
            bv.len() == parameters.len(),
            forall|k: int| 0 <= k < parameters.len() ==> bv[k] == (*parameters@[k])@,
            c0 == *old(counter),
            params_gen(bv, c0) == after(instrs_view(instructions@), params_gen(bv.take(j as int), *counter)),
        decreases j,
    {
        let ghost t = bv.take(j as int);
        let ghost done = instrs_view(instructions@);
        let ghost cnow = *counter;
        assert(t.subrange(0, t.len() - 1) =~= bv.take(j - 1));
        proof {
            lemma_sizes(bv, j - 1);
        }
        let p = &parameters[j - 1];
        assert(t[t.len() - 1] == p@);
        match parameter_to_asm(p, counter) {
            Ok(i) => {
                let ghost iv = instrs_view(i@);
                append_instrs(&mut instructions, i);
                proof {
                    lemma_after_assoc(done, iv, params_gen(bv.take(j - 1), *counter));
                }
            },
            Err(e) => {
                assert(param_gen(t[t.len() - 1], cnow).0 == Err::<Seq<InstrView>, Seq<char>>(e@));
                assert(params_gen(t, cnow).0 == Err::<Seq<InstrView>, Seq<char>>(e@));
                return Err(e);
            },
        }
        j = j - 1;
    }
    assert(instrs_view(instructions@) + Seq::<InstrView>::empty() =~= instrs_view(instructions@));
    let mut target = str_chars("function_");
    extend_chars(&mut target, &string_chars(function_name));
    extend_chars(&mut target, &str_chars("_label"));
    push_instr(&mut instructions, instr1("call", OperandType::Identifier { name: string_from_chars(&target) }));
    push_instr(
        &mut instructions,
        instr2("add", reg("TSP"), OperandType::Literal { value: parameters.len() as i32 }),
    );
    Ok(instructions)
}

/// One side of a comparison in a register.
fn compared_to_register(n: &Node, register_name: &str, error: &str) -> (r: Result<
    (OperandType, Vec<PASMInstruction>),
    String,
>)
    ensures
        prepared_result(r, compared_operand(n@, register_name@, error@)),
{
    match &n.kind {
        NodeKind::Register { name } => Ok((OperandType::Register { name: name.clone() }, no_instrs())),
        NodeKind::Identifier { .. } | NodeKind::Litteral { .. } => {
            match imm_to_imm(n, &reg_node_of(register_name)) {
                Ok(i) => Ok((reg(register_name), i)),
                Err(e) => Err(e),
            }
        },
        NodeKind::MemoryOffset { .. } | NodeKind::MemoryValue { .. } => {
            match mem_to_imm(n, &reg_node_of(register_name)) {
                Ok(i) => Ok((reg(register_name), i)),
                Err(e) => Err(e),
            }
        },
        _ => Err(to_owned_string(error)),
    }
}

fn jump_instr(opcode: &str, to: &String) -> (r: PASMInstruction)
    ensures
        r@ == op(opcode@, seq![identifier(to@)]),
{
    instr1(opcode, OperandType::Identifier { name: to.clone() })
}

/// A comparison that jumps to `jmp_to` when it does not hold.
fn comparison_to_asm(lparam: &Node, rparam: &Node, comparison: ComparisonType, jmp_to: &String) -> (r:
    Result<Vec<PASMInstruction>, String>)
    ensures
        instrs_result(r, comparison_gen(lparam@, rparam@, comparison, jmp_to@)),
{
    let (lo, mut instructions) = match compared_to_register(lparam, "GPA", "Invalid lparam for comparison") {
        Ok(x) => x,
        Err(e) => {
            return Err(e);
        },
    };
    let (ro, ri) = match compared_to_register(rparam, "GPB", "Invalid rparam for comparison") {
        Ok(x) => x,
        Err(e) => {
            return Err(e);
        },
    };
    append_instrs(&mut instructions, ri);
    let ghost head = instrs_view(instructions@);
    let ghost lv = lo@;
    let ghost rv = ro@;
    match comparison {
        ComparisonType::EQ => {
            push_instr(&mut instructions, instr2("cmp", lo, ro));
            push_instr(&mut instructions, jump_instr("jnz", jmp_to));
        },
        ComparisonType::DIFF => {
            push_instr(&mut instructions, instr2("cmp", lo, ro));
            push_instr(&mut instructions, jump_instr("jz", jmp_to));
        },
        ComparisonType::GE => {
            push_instr(&mut instructions, instr2("cmp", lo, ro));
            push_instr(&mut instructions, jump_instr("jn", jmp_to));
        },
        ComparisonType::GT => {
            push_instr(&mut instructions, instr2("cmp", lo.duplicate(), ro.duplicate()));
            push_instr(&mut instructions, jump_instr("jn", jmp_to));
            push_instr(&mut instructions, instr2("cmp", lo, ro));
            push_instr(&mut instructions, jump_instr("jz", jmp_to));
        },
        ComparisonType::LT => {
            push_instr(&mut instructions, instr2("cmp", lo.duplicate(), ro.duplicate()));
            push_instr(&mut instructions, jump_instr("jp", jmp_to));
            push_instr(&mut instructions, instr2("cmp", ro, lo));
            push_instr(&mut instructions, jump_instr("jz", jmp_to));
        },
        ComparisonType::LE => {
            push_instr(&mut instructions, instr2("cmp", lo, ro));
            push_instr(&mut instructions, jump_instr("jp", jmp_to));
        },
    }
    assert(instrs_view(instructions@) =~= head + comparison_jumps(lv, rv, comparison, jmp_to@));
    Ok(instructions)
}

/// The test of a condition, jumping to `next_label` when it fails.
fn condition_to_asm(condition: &Node, next_label: &String, counter: &mut usize) -> (r: Result<
    Vec<PASMInstruction>,
    String,
>)
    ensures
        gen_result(r, *final(counter), condition_gen(condition@, next_label@, *old(counter))),
{
    match &condition.kind {
        NodeKind::Comparison { lparam, rparam, comparison } => comparison_to_asm(
            lparam,
            rparam,
            *comparison,
            next_label,
        ),
        NodeKind::Identifier { name } => {
            let mut v = no_instrs();
            push_instr(
                &mut v,
                instr2("cmp", OperandType::Identifier { name: name.clone() }, OperandType::Literal { value: 0 }),
            );
            push_instr(&mut v, jump_instr("jz", next_label));
            assert(instrs_view(v@) =~= seq![
                op("cmp"@, seq![identifier(name@), OperandView::Literal { value: 0 }]),
                op("jz"@, seq![identifier(next_label@)]),
            ]);
            Ok(v)
        },
        NodeKind::Litteral { value } => {
            let t = create_temp_variable_name("cp", counter);
            let mut v = no_instrs();
            push_instr(
                &mut v,
                instr2("mov", OperandType::Identifier { name: t.clone() }, OperandType::Literal { value: *value }),
            );
            let ghost tv = t@;
            push_instr(
                &mut v,
                instr2("cmp", OperandType::Identifier { name: t }, OperandType::Literal { value: 0 }),
            );
            push_instr(&mut v, jump_instr("jz", next_label));
            assert(instrs_view(v@) =~= seq![
                op("mov"@, seq![identifier(tv), OperandView::Literal { value: *value }]),
                op("cmp"@, seq![identifier(tv), OperandView::Literal { value: 0 }]),
                op("jz"@, seq![identifier(next_label@)]),
            ]);
            Ok(v)
        },
        _ => Err(to_owned_string("Unexpected ast node for if condition")),
    }
}

pub proof fn lemma_block_gen_err(s: Seq<NodeView>, k: int, c: usize)
    requires
        0 <= k <= s.len(),
        block_gen(s.take(k), c).0 is Err,
    ensures
        block_gen(s, c) == block_gen(s.take(k), c),
    decreases s.len(),
{
    if k < s.len() {
        let p = s.subrange(0, s.len() - 1);
        assert(p.take(k) =~= s.take(k));
        lemma_block_gen_err(p, k, c);
    } else {
        assert(s.take(k) =~= s);
    }
}

/// The statements of a block, in order.
fn block_to_asm(content: &Vec<Box<Node>>, counter: &mut usize) -> (r: Result<Vec<PASMInstruction>, String>)
    ensures
        gen_result(r, *final(counter), block_gen(block_view(content@), *old(counter))),
    decreases sizes(block_view(content@)), 4nat,
{
    proof {
        lemma_block_view_index(content@);
    }
    let ghost bv = block_view(content@);
    let ghost c0 = *counter;
    let mut instructions = no_instrs();
    let mut i: usize = 0;
    assert(bv.take(0) =~= Seq::<NodeView>::empty());
    while i < content.len()
        invariant
            i <= content.len(),
            bv == block_view(content@),
            bv.len() == content.len(),
            forall|k: int| 0 <= k < content.len() ==> bv[k] == (*content@[k])@,
            c0 == *old(counter),
            block_gen(bv.take(i as int), c0) == (Ok::<Seq<InstrView>, Seq<char>>(instrs_view(instructions@)), *counter),
        decreases content.len() - i,
    {
        let ghost t = bv.take(i + 1);
        assert(t.subrange(0, t.len() - 1) =~= bv.take(i as int));
        proof {
            lemma_sizes(bv, i as int);
        }
        let n = &content[i];
        assert(t[t.len() - 1] == n@);
        match inst_to_pasm(n, counter) {
            Ok(x) => append_instrs(&mut instructions, x),
            Err(e) => {
                proof {
                    lemma_block_gen_err(bv, i + 1, c0);
                }
                return Err(e);
            },
        }
        i = i + 1;
    }
    assert(bv.take(content.len() as int) =~= bv);
    Ok(instructions)
}

/// A condition and its block; without an exit label, a new one is placed
/// after the block.
fn if_to_asm(
    condition: &Node,
    content: &Vec<Box<Node>>,
    exit_label: Option<String>,
    counter: &mut usize,
) -> (r: Result<Vec<PASMInstruction>, String>)
    ensures
        gen_result(
            r,
            *final(counter),
            if_gen(
                condition@,
                block_view(content@),
                match exit_label {
                    Some(l) => Some(l@),
                    None => None,
                },
                *old(counter),
            ),
        ),
    decreases node_size(condition@) + sizes(block_view(content@)) + 1, 1nat,
{
    let exit_given = exit_label.is_some();
    let next_label = match exit_label {
        Some(v) => v,
        None => create_temp_variable_name("if_exit", counter),
    };
    let mut instructions = match condition_to_asm(condition, &next_label, counter) {
        Ok(i) => i,
        Err(e) => {
            return Err(e);
        },
    };
    match block_to_asm(content, counter) {
        Ok(b) => append_instrs(&mut instructions, b),
        Err(e) => {
            return Err(e);
        },
    }
    if !exit_given {
        push_instr(&mut instructions, PASMInstruction::new_label(next_label));
    }
    Ok(instructions)
}

/// A while loop.
fn while_to_asm(condition: &Node, content: &Vec<Box<Node>>, counter: &mut usize) -> (r: Result<
    Vec<PASMInstruction>,
    String,
>)
    ensures
        gen_result(r, *final(counter), while_gen(condition@, block_view(content@), *old(counter))),
    decreases node_size(condition@) + sizes(block_view(content@)) + 1, 2nat,
{
    let before_label = create_temp_variable_name("while_condition", counter);
    let after_label = create_temp_variable_name("while_exit", counter);
    let mut instructions = no_instrs();
    push_instr(&mut instructions, PASMInstruction::new_label(before_label.clone()));
    let ghost body;
    match if_to_asm(condition, content, Some(after_label.clone()), counter) {
        Ok(i) => {
            proof {
                body = instrs_view(i@);
            }
            append_instrs(&mut instructions, i);
        },
        Err(e) => {
            return Err(e);
        },
    }
    push_instr(&mut instructions, jump_instr("jmp", &before_label));
    push_instr(&mut instructions, PASMInstruction::new_label(after_label.clone()));
    assert(instrs_view(instructions@) =~= seq![label(before_label@)] + body + seq![
        op("jmp"@, seq![identifier(before_label@)]),
        label(after_label@),
    ]);
    Ok(instructions)
}

/// An endless loop.
fn loop_to_asm(content: &Vec<Box<Node>>, counter: &mut usize) -> (r: Result<Vec<PASMInstruction>, String>)
    ensures
        gen_result(r, *final(counter), loop_gen(block_view(content@), *old(counter))),
    decreases sizes(block_view(content@)) + 1, 2nat,
{
    let label_name = create_temp_variable_name("loop_label", counter);
    let mut instructions = no_instrs();
    push_instr(&mut instructions, PASMInstruction::new_label(label_name.clone()));
    let ghost body;
    match block_to_asm(content, counter) {
        Ok(i) => {
            proof {
                body = instrs_view(i@);
            }
            append_instrs(&mut instructions, i);
        },
        Err(e) => {
            return Err(e);
        },
    }
    push_instr(&mut instructions, jump_instr("jmp", &label_name));
    assert(instrs_view(instructions@) =~= seq![label(label_name@)] + body + seq![
        op("jmp"@, seq![identifier(label_name@)]),
    ]);
    Ok(instructions)
}

/// A return.
fn ret_to_asm(value: &Node) -> (r: Result<Vec<PASMInstruction>, String>)
    ensures
        instrs_result(r, ret_gen(value@)),
{
    let first = match &value.kind {
        NodeKind::MemoryValue { name } => instr2("load", reg("FRV"), OperandType::Identifier { name: name.clone() }),
        NodeKind::Identifier { name } => instr2("mov", reg("FRV"), OperandType::Identifier { name: name.clone() }),
        NodeKind::Litteral { value } => instr2("mov", reg("FRV"), OperandType::Literal { value: *value }),
        _ => {
            return Err(to_owned_string("Invalid return value"));
        },
    };
    let ghost fv = first@;
    let mut instructions = no_instrs();
    push_instr(&mut instructions, first);
    push_instr(&mut instructions, instr2("mov", reg("TSP"), reg("SBP")));
    push_instr(&mut instructions, instr1("pop", reg("SBP")));
    push_instr(&mut instructions, instr0("ret"));
    assert(instrs_view(instructions@) =~= seq![
        fv,
        op("mov"@, seq![register("TSP"@), register("SBP"@)]),
        op("pop"@, seq![register("SBP"@)]),
        op("ret"@, seq![]),
    ]);
    Ok(instructions)
}

/// A print.
fn print_to_asm(value: &Node) -> (r: Result<Vec<PASMInstruction>, String>)
    ensures
        instrs_result(r, print_gen(value@)),
{
    let (operand, mut instructions) = match &value.kind {
        NodeKind::Identifier { .. } | NodeKind::Litteral { .. } => match ensure_immediate(value) {
            Ok(o) => (o, no_instrs()),
            Err(e) => {
                return Err(e);
            },
        },
        NodeKind::MemoryOffset { .. } | NodeKind::MemoryValue { .. } => match ensure_memory(value) {
            Ok(x) => x,
            Err(e) => {
                return Err(e);
            },
        },
        _ => {
            return Err(to_owned_string("Invalid value to print"));
        },
    };
    push_instr(&mut instructions, instr1("print", operand));
    Ok(instructions)
}

/// The instructions of a statement, carrying its location when they have none.
pub fn inst_to_pasm(node: &Node, counter: &mut usize) -> (r: Result<Vec<PASMInstruction>, String>)
    ensures
        gen_result(r, *final(counter), inst_gen(node@, *old(counter))),
    decreases node_size(node@), 3nat,
{
    let instructions = match &node.kind {
        NodeKind::Assignment { lparam, rparam } => assignment_to_asm(lparam, rparam, counter),
        NodeKind::IfCondition { condition, content } => if_to_asm(condition, content, None, counter),
        NodeKind::Loop { content } => loop_to_asm(content, counter),
        NodeKind::WhileLoop { condition, content } => while_to_asm(condition, content, counter),
        NodeKind::Print { value } => print_to_asm(value),
        NodeKind::FunctionCall { function_name, parameters } => function_to_asm(
            function_name,
            parameters,
            counter,
        ),
        NodeKind::Return { value } => ret_to_asm(value),
        _ => Err(to_owned_string("Not implemented")),
    };
    match instructions {
        Ok(i) => Ok(tag_instructions_with_span(i, node.span)),
        Err(e) => Err(e),
    }
}


/// Two names made with the same pattern from different counters differ: the
/// counter moves on after each name, so successive temporaries never clash.
pub proof fn lemma_temp_names_differ(pattern: Seq<char>, c: usize, d: usize)
    requires
        c != d,
    ensures
        temp_name(pattern, c) != temp_name(pattern, d),
{
    let head = "temp_"@ + pattern + "_"@;
    if temp_name(pattern, c) == temp_name(pattern, d) {
        assert(temp_name(pattern, c) == head + nat_digits(c as nat));
        assert((head + nat_digits(c as nat)).subrange(head.len() as int, temp_name(pattern, c).len() as int) =~= nat_digits(c as nat));
        assert((head + nat_digits(d as nat)).subrange(head.len() as int, temp_name(pattern, d).len() as int) =~= nat_digits(d as nat));
        crate::text::lemma_nat_digits_injective(c as nat, d as nat);
    }
}

/// The counter after a name differs from the counter before it.
pub proof fn lemma_counter_moves(c: usize)
    ensures
        next_counter(c) != c,
{
}


/// Tagging with no location changes nothing, and once every instruction has a
/// location, tagging again changes nothing: a location, once given, stays.
pub proof fn lemma_tag_keeps_locations(s: Seq<InstrView>, span: Option<TokenLocation>, other: Option<TokenLocation>)
    ensures
        tag(s, None) == s,
        span is Some ==> tag(tag(s, span), other) == tag(s, span),
{
    assert(tag(s, None) =~= s);
    if span is Some {
        assert(tag(tag(s, span), other) =~= tag(s, span));
    }
}

/// Whether a comparison holds of the values `a` (left) and `b` (right).
pub open spec fn comparison_holds(comparison: ComparisonType, a: int, b: int) -> bool {
    match comparison {
        ComparisonType::EQ => a == b,
        ComparisonType::DIFF => a != b,
        ComparisonType::GE => a >= b,
        ComparisonType::GT => a > b,
        ComparisonType::LE => a <= b,
        ComparisonType::LT => a < b,
    }
}

/// Whether a run of compare-and-jump pairs leaves, the operands holding the
/// values that `value` gives: each `cmp x y` sets the flags that the jump
/// right after it reads, and that jump is taken as the machine takes it
/// (see [`jump_taken`]); the first jump taken leaves.
pub open spec fn pairs_leave(code: Seq<InstrView>, value: spec_fn(OperandView) -> int) -> bool
    decreases code.len(),
{
    if code.len() < 2 {
        false
    } else {
        let c = code[0];
        let j = code[1];
        ||| {
            &&& c.opcode == "cmp"@
            &&& c.operands.len() == 2
            &&& opcode_named(j.opcode) matches Some(o)
            &&& jump_taken(o, value(c.operands[0]), value(c.operands[1]))
        }
        ||| pairs_leave(code.subrange(2, code.len() as int), value)
    }
}

/// The code emitted for a comparison leaves for its label exactly when the
/// comparison does not hold of the values of its two operands, and every
/// jump in it goes to that label.
pub proof fn lemma_comparison_jumps_leave_when_false(
    lo: OperandView,
    ro: OperandView,
    comparison: ComparisonType,
    to: Seq<char>,
    value: spec_fn(OperandView) -> int,
)
    ensures
        pairs_leave(comparison_jumps(lo, ro, comparison, to), value) == !comparison_holds(
            comparison,
            value(lo),
            value(ro),
        ),
        forall|i: int|
            0 <= i < comparison_jumps(lo, ro, comparison, to).len() && i % 2 == 1
                ==> #[trigger] comparison_jumps(lo, ro, comparison, to)[i].operands == seq![
                identifier(to),
            ],
{
    lemma_jump_mnemonics();
    reveal_with_fuel(pairs_leave, 3);
    let code = comparison_jumps(lo, ro, comparison, to);
    if code.len() == 4 {
        assert(code.subrange(2, 4).subrange(2, 2) =~= Seq::<InstrView>::empty());
    } else {
        assert(code.subrange(2, 2) =~= Seq::<InstrView>::empty());
    }
}

/// How many slots an instruction adds to the stack: one for a `push`, minus
/// one for a `pop`, minus `k` for `add 'TSP #k` and `k` for `sub 'TSP #k`
/// (the stack grows down); nothing for the others.
pub open spec fn instr_stack_growth(i: InstrView) -> int {
    if i.opcode == "push"@ {
        1
    } else if i.opcode == "pop"@ {
        -1
    } else if i.operands.len() == 2 && i.operands[0] == register("TSP"@) {
        match i.operands[1] {
            OperandView::Literal { value } => if i.opcode == "add"@ {
                -value
            } else if i.opcode == "sub"@ {
                value as int
            } else {
                0
            },
            _ => 0,
        }
    } else {
        0
    }
}

/// How many slots a run of instructions adds to the stack.
pub open spec fn stack_growth(s: Seq<InstrView>) -> int
    decreases s.len(),
{
    if s.len() == 0 {
        0
    } else {
        stack_growth(s.drop_last()) + instr_stack_growth(s.last())
    }
}

proof fn lemma_stack_growth_append(a: Seq<InstrView>, b: Seq<InstrView>)
    ensures
        stack_growth(a + b) == stack_growth(a) + stack_growth(b),
    decreases b.len(),
{
    if b.len() == 0 {
        assert(a + b =~= a);
    } else {
        lemma_stack_growth_append(a, b.drop_last());
        assert((a + b).drop_last() =~= a + b.drop_last());
    }
}

/// Whether an argument is pushed as it is: a variable or a literal.
pub open spec fn plain_argument(n: NodeView) -> bool {
    n.kind is Identifier || n.kind is Litteral
}

/// The operand a plain argument is pushed as.
pub open spec fn argument_operand(n: NodeView) -> OperandView {
    match n.kind {
        NodeKindView::Identifier { name } => identifier(name),
        NodeKindView::Litteral { value } => OperandView::Literal { value },
        _ => OperandView::Literal { value: 0 },
    }
}

proof fn lemma_plain_arguments_pushed(s: Seq<NodeView>, c: usize)
    requires
        forall|k: int| 0 <= k < s.len() ==> plain_argument(#[trigger] s[k]),
    ensures
        params_gen(s, c).0 is Ok,
        stack_growth(params_gen(s, c).0->Ok_0) == s.len(),
        params_gen(s, c).0->Ok_0.len() == s.len(),
        forall|k: int|
            0 <= k < s.len() ==> #[trigger] params_gen(s, c).0->Ok_0[k] == op(
                "push"@,
                seq![argument_operand(s[s.len() - 1 - k])],
            ),
    decreases s.len(),
{
    reveal_strlit("push");
    if s.len() > 0 {
        let rest = s.subrange(0, s.len() - 1);
        assert forall|k: int| 0 <= k < rest.len() implies plain_argument(#[trigger] rest[k]) by {
            assert(rest[k] == s[k]);
        }
        assert(plain_argument(s[s.len() - 1]));
        lemma_plain_arguments_pushed(rest, c);
        let i1 = param_gen(s[s.len() - 1], c).0->Ok_0;
        let r = params_gen(rest, c).0->Ok_0;
        assert(params_gen(s, c).0->Ok_0 == i1 + r);
        assert forall|k: int| 0 <= k < s.len() implies #[trigger] params_gen(s, c).0->Ok_0[k] == op(
            "push"@,
            seq![argument_operand(s[s.len() - 1 - k])],
        ) by {
            if k > 0 {
                assert((i1 + r)[k] == r[k - 1]);
                assert(rest[rest.len() - 1 - (k - 1)] == s[s.len() - 1 - k]);
            }
        }
        assert(i1.len() == 1 && i1[0].opcode == "push"@);
        assert(i1.drop_last() =~= Seq::<InstrView>::empty());
        assert(stack_growth(i1.drop_last()) == 0);
        assert(instr_stack_growth(i1.last()) == 1);
        assert(stack_growth(i1) == 1);
        lemma_stack_growth_append(i1, params_gen(rest, c).0->Ok_0);
    }
}

/// A call leaves the stack pointer where it was: its code ends with the call
/// and then `add 'TSP #n`, `n` being the number of arguments, which moves the
/// stack pointer back up over the arguments pushed before the call; with
/// arguments pushed as they are, the pushes and that `add` balance exactly.
pub proof fn lemma_call_restores_stack_pointer(name: Seq<char>, params: Seq<NodeView>, c: usize)
    requires
        params.len() <= i32::MAX,
    ensures
        function_gen(name, params, c).0 matches Ok(code) ==> {
            &&& code.len() >= 2
            &&& code[code.len() - 2] == op("call"@, seq![identifier("function_"@ + name + "_label"@)])
            &&& code[code.len() - 1] == op(
                "add"@,
                seq![register("TSP"@), OperandView::Literal { value: params.len() as i32 }],
            )
            &&& instr_stack_growth(code[code.len() - 1]) == -params.len()
        },
        (forall|k: int| 0 <= k < params.len() ==> plain_argument(#[trigger] params[k])) ==> {
            &&& function_gen(name, params, c).0 is Ok
            &&& stack_growth(function_gen(name, params, c).0->Ok_0) == 0
            &&& function_gen(name, params, c).0->Ok_0.len() == params.len() + 2
            &&& forall|k: int|
                0 <= k < params.len() ==> #[trigger] function_gen(name, params, c).0->Ok_0[k] == op(
                    "push"@,
                    seq![argument_operand(params[params.len() - 1 - k])],
                )
        },
{
    reveal_strlit("push");
    reveal_strlit("pop");
    reveal_strlit("add");
    reveal_strlit("sub");
    reveal_strlit("call");
    let last = op("add"@, seq![register("TSP"@), OperandView::Literal { value: params.len() as i32 }]);
    let call = op("call"@, seq![identifier("function_"@ + name + "_label"@)]);
    assert("add"@ != "push"@ && "add"@ != "pop"@ && "add"@ != "sub"@) by {
        assert("add"@[0] != "pop"@[0] && "add"@[0] != "sub"@[0]);
    }
    assert("call"@ != "push"@ && "call"@ != "pop"@) by {
        assert("call"@[0] != "push"@[0]);
    }
    assert(instr_stack_growth(last) == -params.len());
    assert(instr_stack_growth(call) == 0);
    if forall|k: int| 0 <= k < params.len() ==> plain_argument(#[trigger] params[k]) {
        lemma_plain_arguments_pushed(params, c);
        let i = params_gen(params, c).0->Ok_0;
        let code = i.push(call).push(last);
        assert(function_gen(name, params, c).0 == Ok::<Seq<InstrView>, Seq<char>>(code));
        assert(code.drop_last() =~= i.push(call));
        assert(i.push(call).drop_last() =~= i);
        assert(code.last() == last);
        assert(i.push(call).last() == call);
        assert(stack_growth(i.push(call)) == stack_growth(i) + instr_stack_growth(call));
        assert(stack_growth(code) == stack_growth(i.push(call)) + instr_stack_growth(last));
        assert forall|k: int| 0 <= k < params.len() implies #[trigger] code[k] == i[k] by {}
    }
}

} // verus!
