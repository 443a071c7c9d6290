//! The instructions that move a value between immediates (variables,
//! registers, literals) and memory, and that compute an operation into one.
use vstd::prelude::*;

use super::instruction::{instrs_view, op, operands_view, InstrView, PASMInstruction};
use super::operand_type::{OperandType, OperandView};
use crate::ast::display::{kind_text, kind_view};
use crate::ast::node::{Node, NodeKind, NodeKindView, NodeView, OperationType};
use crate::text::{extend_chars, str_chars, string_from_chars, to_owned_string};

verus! {

/// Instructions, or the reason they cannot be generated.
pub type Instrs = Result<Seq<InstrView>, Seq<char>>;

pub open spec fn register(name: Seq<char>) -> OperandView {
    OperandView::Register { name }
}

pub open spec fn identifier(name: Seq<char>) -> OperandView {
    OperandView::Identifier { name }
}

pub open spec fn not_immediate() -> Seq<char> {
    "Operand should be either a Register, Identifier or Literal"@
}

/// A variable, a register or a literal, as an operand.
pub open spec fn immediate_of(n: NodeView) -> Result<OperandView, Seq<char>> {
    match n.kind {
        NodeKindView::Identifier { name } => Ok(OperandView::Identifier { name }),
        NodeKindView::Register { name } => Ok(OperandView::Register { name }),
        NodeKindView::Litteral { value } => Ok(OperandView::Literal { value }),
        _ => Err(not_immediate()),
    }
}

/// A variable or a register (what a value can be loaded into), as an operand.
pub open spec fn loadable_of(n: NodeView) -> Result<OperandView, Seq<char>> {
    match n.kind {
        NodeKindView::Identifier { name } => Ok(OperandView::Identifier { name }),
        NodeKindView::Register { name } => Ok(OperandView::Register { name }),
        _ => Err(not_immediate()),
    }
}

/// A memory location as an operand, with the instructions that prepare it: a
/// memory value is used as it is; for `base[offset]` the base variable is
/// first moved into `GPC`.
pub open spec fn memory_of(n: NodeView) -> Result<(OperandView, Seq<InstrView>), Seq<char>> {
    match n.kind {
        NodeKindView::MemoryValue { name } => Ok((OperandView::Memory { name }, seq![])),
        NodeKindView::MemoryOffset { base, offset } => match immediate_of(*offset) {
            Ok(off) => match base.kind {
                NodeKindView::Identifier { name } => Ok(
                    (
                        OperandView::MemoryOffset {
                            base: Box::new(register("GPC"@)),
                            offset: Box::new(off),
                        },
                        seq![op("mov"@, seq![register("GPC"@), identifier(name)])],
                    ),
                ),
                _ => Err("Base for memory offset should be an identifier"@),
            },
            Err(e) => Err(e),
        },
        _ => Err("Operand should be either a Memory address or a Memory Offset"@),
    }
}

pub open spec fn imm_to_imm_spec(from: NodeView, to: NodeView) -> Instrs {
    match immediate_of(to) {
        Ok(t) => match immediate_of(from) {
            Ok(f) => Ok(seq![op("mov"@, seq![t, f])]),
            Err(e) => Err(e),
        },
        Err(e) => Err(e),
    }
}

pub open spec fn mem_to_imm_spec(from: NodeView, to: NodeView) -> Instrs {
    match loadable_of(to) {
        Ok(t) => match memory_of(from) {
            Ok((f, prep)) => Ok(prep.push(op("load"@, seq![t, f]))),
            Err(e) => Err(e),
        },
        Err(e) => Err(e),
    }
}

pub open spec fn imm_to_mem_spec(from: NodeView, to: NodeView) -> Instrs {
    match memory_of(to) {
        Ok((t, prep)) => match immediate_of(from) {
            Ok(f) => Ok(prep.push(op("store"@, seq![t, f]))),
            Err(e) => Err(e),
        },
        Err(e) => Err(e),
    }
}

pub open spec fn mem_to_mem_spec(from: NodeView, to: NodeView) -> Instrs {
    match memory_of(to) {
        Ok((t, to_prep)) => match memory_of(from) {
            Ok((f, from_prep)) => Ok(
                from_prep.push(op("load"@, seq![register("GPB"@), f])) + to_prep.push(
                    op("store"@, seq![t, register("GPB"@)]),
                ),
            ),
            Err(e) => Err(e),
        },
        Err(e) => Err(e),
    }
}

pub open spec fn reg_node(name: Seq<char>) -> NodeView {
    NodeView { kind: NodeKindView::Register { name }, span: None }
}

/// The register that holds a value, with the instructions that load it there:
/// a register is used as it is; anything else is loaded into `reg`.
pub open spec fn load_spec(reg: Seq<char>, from: NodeView) -> Result<(OperandView, Seq<InstrView>), Seq<char>> {
    match from.kind {
        NodeKindView::Register { name } => Ok((register(name), seq![])),
        NodeKindView::Litteral { .. } | NodeKindView::Identifier { .. } => match imm_to_imm_spec(
            from,
            reg_node(reg),
        ) {
            Ok(i) => Ok((register(reg), i)),
            Err(e) => Err(e),
        },
        NodeKindView::MemoryValue { .. } | NodeKindView::MemoryOffset { .. } => match mem_to_imm_spec(
            from,
            reg_node(reg),
        ) {
            Ok(i) => Ok((register(reg), i)),
            Err(e) => Err(e),
        },
        _ => Err(
            "Operand for loading into a register must be either a Literal, Register, Identifier, Memory Address or Offseted memory address"@,
        ),
    }
}

/// The opcode of an arithmetic operation.
pub open spec fn operation_opcode(o: OperationType) -> Seq<char> {
    match o {
        OperationType::Addition => "add"@,
        OperationType::Substraction => "sub"@,
        OperationType::Multiplication => "mul"@,
        OperationType::Division => "div"@,
        OperationType::Modulo => "mod"@,
    }
}

pub open spec fn not_an_operation(n: NodeView) -> Seq<char> {
    "Can't use `op_to_inst` on a non-operation node "@ + kind_text(n.kind)
}

/// The instructions computing an operation into `GPA` (its operands loaded
/// into `GPA` and `GPB` unless they are registers), then moving the result
/// to `to`, into an immediate when `to_memory` is false, else into memory.
pub open spec fn op_to_spec(from: NodeView, to: NodeView, to_memory: bool) -> Instrs {
    match from.kind {
        NodeKindView::Operation { lparam, rparam, operation } => match load_spec("GPA"@, *lparam) {
            Ok((op1, i1)) => match load_spec("GPB"@, *rparam) {
                Ok((op2, i2)) => {
                    let head = (i1 + i2).push(op(operation_opcode(operation), seq![op1, op2]));
                    let result = reg_node(op1->Register_name);
                    let tail = if to_memory {
                        imm_to_mem_spec(result, to)
                    } else {
                        imm_to_imm_spec(result, to)
                    };
                    match tail {
                        Ok(t) => Ok(head + t),
                        Err(e) => Err(e),
                    }
                },
                Err(e) => Err(e),
            },
            Err(e) => Err(e),
        },
        _ => Err(not_an_operation(from)),
    }
}

/// Whether an executable result holds the instructions the spec gives.
pub open spec fn instrs_result(r: Result<Vec<PASMInstruction>, String>, s: Instrs) -> bool {
    match s {
        Ok(i) => (r matches Ok(v) && instrs_view(v@) == i),
        Err(e) => (r matches Err(m) && m@ == e),
    }
}

/// Whether an executable operand result is the one the spec gives.
pub open spec fn operand_result(r: Result<OperandType, String>, s: Result<OperandView, Seq<char>>) -> bool {
    match s {
        Ok(o) => (r matches Ok(x) && x@ == o),
        Err(e) => (r matches Err(m) && m@ == e),
    }
}

/// Whether an executable prepared-operand result is the one the spec gives.
pub open spec fn prepared_result(
    r: Result<(OperandType, Vec<PASMInstruction>), String>,
    s: Result<(OperandView, Seq<InstrView>), Seq<char>>,
) -> bool {
    match s {
        Ok((o, i)) => (r matches Ok((x, v)) && x@ == o && instrs_view(v@) == i),
        Err(e) => (r matches Err(m) && m@ == e),
    }
}

// ---------------------------------------------------------------------------
// Building blocks
// ---------------------------------------------------------------------------

/// An instruction with one operand.
pub fn instr1(opcode: &str, a: OperandType) -> (r: PASMInstruction)
    ensures
        r@ == op(opcode@, seq![a@]),
{
    let mut v: Vec<OperandType> = Vec::new();
    v.push(a);
    assert(operands_view(v@) =~= seq![a@]);
    PASMInstruction::new(to_owned_string(opcode), v)
}

/// An instruction with two operands.
pub fn instr2(opcode: &str, a: OperandType, b: OperandType) -> (r: PASMInstruction)
    ensures
        r@ == op(opcode@, seq![a@, b@]),
{
    let mut v: Vec<OperandType> = Vec::new();
    v.push(a);
    v.push(b);
    assert(operands_view(v@) =~= seq![a@, b@]);
    PASMInstruction::new(to_owned_string(opcode), v)
}

/// An instruction without operands.
pub fn instr0(opcode: &str) -> (r: PASMInstruction)
    ensures
        r@ == op(opcode@, seq![]),
{
    let v: Vec<OperandType> = Vec::new();
    assert(operands_view(v@) =~= seq![]);
    PASMInstruction::new(to_owned_string(opcode), v)
}

/// Appends one instruction.
pub fn push_instr(v: &mut Vec<PASMInstruction>, i: PASMInstruction)
    ensures
        instrs_view(final(v)@) == instrs_view(old(v)@).push(i@),
{
    v.push(i);
    assert(instrs_view(v@) =~= instrs_view(old(v)@).push(i@));
}

/// Appends instructions.
pub fn append_instrs(v: &mut Vec<PASMInstruction>, w: Vec<PASMInstruction>)
    ensures
        instrs_view(final(v)@) == instrs_view(old(v)@) + instrs_view(w@),
{
    let ghost wv = w@;
    let mut w = w;
    v.append(&mut w);
    assert(instrs_view(v@) =~= instrs_view(old(v)@) + instrs_view(wv));
}

/// No instruction.
pub fn no_instrs() -> (r: Vec<PASMInstruction>)
    ensures
        instrs_view(r@) == Seq::<InstrView>::empty(),
{
    let r: Vec<PASMInstruction> = Vec::new();
    assert(instrs_view(r@) =~= Seq::<InstrView>::empty());
    r
}

/// A register named `name`, as an operand.
pub fn reg(name: &str) -> (r: OperandType)
    ensures
        r@ == register(name@),
{
    OperandType::Register { name: to_owned_string(name) }
}

/// A register named `name`, as a node.
pub fn reg_node_of(name: &str) -> (r: Node)
    ensures
        r@ == reg_node(name@),
{
    Node { kind: NodeKind::Register { name: to_owned_string(name) }, span: None }
}

// ---------------------------------------------------------------------------
// Operands
// ---------------------------------------------------------------------------

/// The operand of a variable, a register or a literal.
pub fn ensure_immediate(node: &Node) -> (r: Result<OperandType, String>)
    ensures
        operand_result(r, immediate_of(node@)),
{
    match &node.kind {
        NodeKind::Identifier { name } => Ok(OperandType::Identifier { name: name.clone() }),
        NodeKind::Register { name } => Ok(OperandType::Register { name: name.clone() }),
        NodeKind::Litteral { value } => Ok(OperandType::Literal { value: *value }),
        _ => Err(to_owned_string("Operand should be either a Register, Identifier or Literal")),
    }
}

/// The operand of a variable or a register.
pub fn ensure_loadable_immediate(node: &Node) -> (r: Result<OperandType, String>)
    ensures
        operand_result(r, loadable_of(node@)),
{
    match &node.kind {
        NodeKind::Identifier { name } => Ok(OperandType::Identifier { name: name.clone() }),
        NodeKind::Register { name } => Ok(OperandType::Register { name: name.clone() }),
        _ => Err(to_owned_string("Operand should be either a Register, Identifier or Literal")),
    }
}

/// The operand of a memory location, with the instructions that prepare it.
pub fn ensure_memory(node: &Node) -> (r: Result<(OperandType, Vec<PASMInstruction>), String>)
    ensures
        prepared_result(r, memory_of(node@)),
{
    match &node.kind {
        NodeKind::MemoryValue { name } => {
            let prep = no_instrs();
            assert(instrs_view(prep@) =~= seq![]);
            Ok((OperandType::Memory { name: name.clone() }, prep))
        },
        NodeKind::MemoryOffset { base, offset } => {
            let off = match ensure_immediate(offset) {
                Ok(o) => o,
                Err(e) => {
                    return Err(e);
                },
            };
            match &base.kind {
                NodeKind::Identifier { name } => {
                    let ghost offv = off@;
                    assert(base@.kind == (NodeKindView::Identifier { name: name@ }));
                    let gpc = reg("GPC");
                    let operand = OperandType::MemoryOffset {
                        base: Box::new(gpc),
                        offset: Box::new(off),
                    };
                    assert(operand@ == (OperandView::MemoryOffset {
                        base: Box::new(register("GPC"@)),
                        offset: Box::new(offv),
                    }));
                    let mut prep = no_instrs();
                    push_instr(
                        &mut prep,
                        instr2("mov", reg("GPC"), OperandType::Identifier { name: name.clone() }),
                    );
                    assert(instrs_view(prep@) =~= seq![
                        op("mov"@, seq![register("GPC"@), identifier(name@)]),
                    ]);
                    assert(memory_of(node@) == Ok::<(OperandView, Seq<InstrView>), Seq<char>>((
                        OperandView::MemoryOffset {
                            base: Box::new(register("GPC"@)),
                            offset: Box::new(offv),
                        },
                        seq![op("mov"@, seq![register("GPC"@), identifier(name@)])],
                    )));
                    Ok((operand, prep))
                },
                _ => {
                    assert(!(base@.kind is Identifier));
                    Err(to_owned_string("Base for memory offset should be an identifier"))
                },
            }
        },
        _ => Err(to_owned_string("Operand should be either a Memory address or a Memory Offset")),
    }
}

/// Loads a value into `register`, unless it is a register already.
pub fn load_to_register(register_name: &str, from: &Node) -> (r: Result<
    (OperandType, Vec<PASMInstruction>),
    String,
>)
    ensures
        prepared_result(r, load_spec(register_name@, from@)),
{
    let destination = reg_node_of(register_name);
    match &from.kind {
        NodeKind::Register { name } => Ok((OperandType::Register { name: name.clone() }, no_instrs())),
        NodeKind::Litteral { .. } | NodeKind::Identifier { .. } => match imm_to_imm(
            from,
            &destination,
        ) {
            Ok(i) => Ok((reg(register_name), i)),
            Err(e) => Err(e),
        },
        NodeKind::MemoryValue { .. } | NodeKind::MemoryOffset { .. } => match mem_to_imm(
            from,
            &destination,
        ) {
            Ok(i) => Ok((reg(register_name), i)),
            Err(e) => Err(e),
        },
        _ => Err(
            to_owned_string(
                "Operand for loading into a register must be either a Literal, Register, Identifier, Memory Address or Offseted memory address",
            ),
        ),
    }
}

// ---------------------------------------------------------------------------
// Assignments
// ---------------------------------------------------------------------------

/// An assignment between immediates: `mov to from`.
pub fn imm_to_imm(from: &Node, to: &Node) -> (r: Result<Vec<PASMInstruction>, String>)
    ensures
        instrs_result(r, imm_to_imm_spec(from@, to@)),
{
    let to = match ensure_immediate(to) {
        Ok(o) => o,
        Err(e) => {
            return Err(e);
        },
    };
    let from = match ensure_immediate(from) {
        Ok(o) => o,
        Err(e) => {
            return Err(e);
        },
    };
    let mut v = no_instrs();
    push_instr(&mut v, instr2("mov", to, from));
    Ok(v)
}

/// An assignment from memory to a variable or register: `load to from`.
pub fn mem_to_imm(from: &Node, to: &Node) -> (r: Result<Vec<PASMInstruction>, String>)
    ensures
        instrs_result(r, mem_to_imm_spec(from@, to@)),
{
    let to = match ensure_loadable_immediate(to) {
        Ok(o) => o,
        Err(e) => {
            return Err(e);
        },
    };
    let (from, mut instructions) = match ensure_memory(from) {
        Ok(x) => x,
        Err(e) => {
            return Err(e);
        },
    };
    push_instr(&mut instructions, instr2("load", to, from));
    Ok(instructions)
}

/// An assignment from an immediate to memory: `store to from`.
pub fn imm_to_mem(from: &Node, to: &Node) -> (r: Result<Vec<PASMInstruction>, String>)
    ensures
        instrs_result(r, imm_to_mem_spec(from@, to@)),
{
    let (to, mut instructions) = match ensure_memory(to) {
        Ok(x) => x,
        Err(e) => {
            return Err(e);
        },
    };
    let from = match ensure_immediate(from) {
        Ok(o) => o,
        Err(e) => {
            return Err(e);
        },
    };
    push_instr(&mut instructions, instr2("store", to, from));
    Ok(instructions)
}

/// An assignment from memory to memory, through `GPB`.
pub fn mem_to_mem(from: &Node, to: &Node) -> (r: Result<Vec<PASMInstruction>, String>)
    ensures
        instrs_result(r, mem_to_mem_spec(from@, to@)),
{
    let (to, to_instructions) = match ensure_memory(to) {
        Ok(x) => x,
        Err(e) => {
            return Err(e);
        },
    };
    let (from, mut instructions) = match ensure_memory(from) {
        Ok(x) => x,
        Err(e) => {
            return Err(e);
        },
    };
    push_instr(&mut instructions, instr2("load", reg("GPB"), from));
    let ghost first = instrs_view(instructions@);
    append_instrs(&mut instructions, to_instructions);
    push_instr(&mut instructions, instr2("store", to, reg("GPB")));
    Ok(instructions)
}

fn operation_to_opcode(operation: OperationType) -> (r: &'static str)
    ensures
        r@ == operation_opcode(operation),
{
    match operation {
        OperationType::Addition => "add",
        OperationType::Substraction => "sub",
        OperationType::Multiplication => "mul",
        OperationType::Division => "div",
        OperationType::Modulo => "mod",
    }
}

/// The operation `from` computed into `GPA`, then moved to `to`.
fn op_to(from: &Node, to: &Node, to_memory: bool) -> (r: Result<Vec<PASMInstruction>, String>)
    ensures
        instrs_result(r, op_to_spec(from@, to@, to_memory)),
{
    match &from.kind {
        NodeKind::Operation { lparam, rparam, operation } => {
            let (op1, mut instructions) = match load_to_register("GPA", lparam) {
                Ok(x) => x,
                Err(e) => {
                    return Err(e);
                },
            };
            let (op2, i2) = match load_to_register("GPB", rparam) {
                Ok(x) => x,
                Err(e) => {
                    return Err(e);
                },
            };
            append_instrs(&mut instructions, i2);
            let name = match &op1 {
                OperandType::Register { name } => name.clone(),
                _ => to_owned_string("GPA"),
            };
            proof {
                reveal_strlit("GPA");
            }
            assert(op1@ is Register);
            let result = Node { kind: NodeKind::Register { name }, span: None };
            push_instr(&mut instructions, instr2(operation_to_opcode(*operation), op1, op2));
            let tail = if to_memory {
                imm_to_mem(&result, to)
            } else {
                imm_to_imm(&result, to)
            };
            match tail {
                Ok(t) => {
                    append_instrs(&mut instructions, t);
                    Ok(instructions)
                },
                Err(e) => Err(e),
            }
        },
        _ => {
            let mut msg = str_chars("Can't use `op_to_inst` on a non-operation node ");
            extend_chars(&mut msg, &crate::text::string_chars(&from.kind.to_string()));
            proof {
                crate::ast::display::lemma_kind_view(*from);
            }
            Err(string_from_chars(&msg))
        },
    }
}

/// An operation computed into a variable or a register.
pub fn op_to_imm(from: &Node, to: &Node) -> (r: Result<Vec<PASMInstruction>, String>)
    ensures
        instrs_result(r, op_to_spec(from@, to@, false)),
{
    op_to(from, to, false)
}

/// An operation computed into memory.
pub fn op_to_mem(from: &Node, to: &Node) -> (r: Result<Vec<PASMInstruction>, String>)
    ensures
        instrs_result(r, op_to_spec(from@, to@, true)),
{
    op_to(from, to, true)
}

} // verus!
