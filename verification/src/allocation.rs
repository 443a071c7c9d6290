//! Stack allocation: every variable of a function gets a slot relative to the
//! base pointer `SBP`. Parameters lie above it (the first at `SBP + 2`), the
//! other variables below it (`SBP - 1`, `SBP - 2`, ...), numbered from 1 in
//! order of first use. Each instruction that uses a variable is rewritten to
//! go through `GPA`/`GPB`, after a comment holding the instruction it replaces.
use vstd::prelude::*;

use crate::pasm::assignment::{append_instrs, instr1, instr2, no_instrs, push_instr, reg, register};
use crate::pasm::instruction::{instruction_text, instrs_view, op, operands_view, InstrView, PASMInstruction};
use crate::pasm::operand_type::{names_memory, names_register, stack_sign, OperandType, OperandView};
use crate::pasm::program::PASMFunction;
use crate::pasm::translation::{tag, tag_instructions_with_span};
use crate::ast::function::names_view;
use crate::text::{chars_equal, string_chars, string_equals, to_owned_string};

verus! {

// ---------------------------------------------------------------------------
// Specification
// ---------------------------------------------------------------------------

/// The variables' slots recorded in `s`, a later entry replacing an earlier
/// one of the same name.
pub open spec fn assoc(s: Seq<(String, i32)>) -> Map<Seq<char>, i32>
    decreases s.len(),
{
    if s.len() == 0 {
        Map::empty()
    } else {
        assoc(s.drop_last()).insert(s.last().0@, s.last().1)
    }
}

/// The slots of the parameters: the `i`-th at `-(i + 2)`, a later parameter of
/// the same name replacing an earlier one.
pub open spec fn parameter_slots(params: Seq<Seq<char>>) -> Map<Seq<char>, i32>
    decreases params.len(),
{
    if params.len() == 0 {
        Map::empty()
    } else {
        parameter_slots(params.drop_last()).insert(params.last(), -(params.len() + 1) as i32)
    }
}

/// The stack slot at `off` from `SBP`.
pub open spec fn sbp_slot(off: i32) -> OperandView {
    OperandView::Stack {
        register: Box::new(register("SBP"@)),
        operation: stack_sign(off),
        offset: (if off < 0 { -off } else { off as int }) as usize,
    }
}

/// The slot of a variable operand, given one (the next free slot) when it has
/// none yet; nothing for other operands, registers (`'NAME`) and memory
/// values (`$NAME`) among them, which are used as they are.
pub open spec fn var_location(o: OperandView, map: Map<Seq<char>, i32>, ptr: nat) -> (
    Option<i32>,
    Map<Seq<char>, i32>,
    nat,
) {
    match o {
        OperandView::Identifier { name } => if names_register(o) || names_memory(o) {
            (None, map, ptr)
        } else if map.contains_key(name) {
            (Some(map[name]), map, ptr)
        } else {
            (Some(ptr as i32), map.insert(name, ptr as i32), ptr + 1)
        },
        _ => (None, map, ptr),
    }
}

/// An operand brought into register `reg`: a variable from its slot, a memory
/// variable by a load; other operands are used as they are.
pub open spec fn via_register(loc: Option<i32>, o: OperandView, reg: Seq<char>) -> (
    Seq<InstrView>,
    OperandView,
) {
    match loc {
        Some(off) => (seq![op("mov"@, seq![register(reg), sbp_slot(off)])], register(reg)),
        None => if names_memory(o) {
            (seq![op("load"@, seq![register(reg), o])], register(reg))
        } else {
            (seq![], o)
        },
    }
}

pub open spec fn is_arithmetic(o: Seq<char>) -> bool {
    o == "add"@ || o == "sub"@ || o == "mul"@ || o == "div"@ || o == "mod"@
}

/// Whether an instruction has the operands its opcode uses.
pub open spec fn has_operands(i: InstrView) -> bool {
    let o = i.opcode;
    i.is_label || ((o == "mov"@ || o == "load"@ || o == "store"@ || is_arithmetic(o) || o
        == "cmp"@) ==> i.operands.len() >= 2) && ((o == "push"@ || o == "print"@)
        ==> i.operands.len() >= 1)
}

/// The value of `'GPA` written as a variable.
pub open spec fn gpa_variable() -> OperandView {
    OperandView::Identifier { name: "'GPA"@ }
}

/// The instructions standing for one instruction, and the slots and next free
/// slot after it.
pub open spec fn alloc_instr(i: InstrView, map: Map<Seq<char>, i32>, ptr: nat) -> (
    Seq<InstrView>,
    Map<Seq<char>, i32>,
    nat,
) {
    let ops = i.operands;
    let o = i.opcode;
    if o == "mov"@ {
        let (l2, m1, p1) = var_location(ops[1], map, ptr);
        let src = match l2 {
            Some(off) => sbp_slot(off),
            None => ops[1],
        };
        if ops[0] is Identifier && !names_register(ops[0]) && !names_memory(ops[0]) {
            let name = ops[0]->Identifier_name;
            let (m2, p2) = if m1.contains_key(name) {
                (m1, p1)
            } else {
                (m1.insert(name, p1 as i32), p1 + 1)
            };
            (seq![op("mov"@, seq![sbp_slot(m2[name]), src])], m2, p2)
        } else {
            (seq![op("mov"@, seq![ops[0], src])], m1, p1)
        }
    } else if o == "load"@ {
        let (l1, m1, p1) = var_location(ops[0], map, ptr);
        let dest = if l1 is Some {
            gpa_variable()
        } else {
            ops[0]
        };
        let back = match l1 {
            Some(off) => seq![op("mov"@, seq![sbp_slot(off), gpa_variable()])],
            None => seq![],
        };
        (seq![op("load"@, seq![dest, ops[1]])] + back, m1, p1)
    } else if o == "store"@ {
        let (l2, m1, p1) = var_location(ops[1], map, ptr);
        let src = match l2 {
            Some(off) => sbp_slot(off),
            None => ops[1],
        };
        (seq![op("store"@, seq![ops[0], src])], m1, p1)
    } else if is_arithmetic(o) || o == "cmp"@ {
        let (l1, m1, p1) = var_location(ops[0], map, ptr);
        let (l2, m2, p2) = var_location(ops[1], m1, p1);
        let (pre1, o1) = via_register(l1, ops[0], "GPA"@);
        let (pre2, o2) = via_register(l2, ops[1], "GPB"@);
        let back = match l1 {
            Some(off) => if is_arithmetic(o) {
                seq![op("mov"@, seq![sbp_slot(off), register("GPA"@)])]
            } else {
                seq![]
            },
            None => seq![],
        };
        (pre1 + pre2 + seq![op(o, seq![o1, o2])] + back, m2, p2)
    } else if o == "push"@ || o == "print"@ {
        let (l1, m1, p1) = var_location(ops[0], map, ptr);
        let (pre1, o1) = via_register(l1, ops[0], "GPA"@);
        (pre1 + seq![op(o, seq![o1])], m1, p1)
    } else {
        (seq![i], map, ptr)
    }
}

/// A comment holding `text`.
pub open spec fn comment(text: Seq<char>) -> InstrView {
    InstrView { is_label: false, is_comment: true, opcode: text, operands: seq![], span: None }
}

/// One instruction allocated: a label stays; another is replaced by a comment
/// holding it, then its rewriting, which carries its location.
pub open spec fn alloc_one(i: InstrView, map: Map<Seq<char>, i32>, ptr: nat) -> (
    Seq<InstrView>,
    Map<Seq<char>, i32>,
    nat,
) {
    if i.is_label {
        (seq![i], map, ptr)
    } else {
        let (out, m, p) = alloc_instr(i, map, ptr);
        (seq![comment(instruction_text(i))] + tag(out, i.span), m, p)
    }
}

/// The instructions allocated in order, the slots flowing from one to the next.
pub open spec fn alloc_run(s: Seq<InstrView>, map: Map<Seq<char>, i32>, ptr: nat) -> (
    Seq<InstrView>,
    Map<Seq<char>, i32>,
    nat,
)
    decreases s.len(),
{
    if s.len() == 0 {
        (seq![], map, ptr)
    } else {
        let (o, m, p) = alloc_run(s.drop_last(), map, ptr);
        let (o2, m2, p2) = alloc_one(s.last(), m, p);
        (o + o2, m2, p2)
    }
}

/// A function allocated: its parameters' slots below `SBP`, slot 0 kept for
/// the saved base pointer, the others from 1 on.
pub open spec fn allocation(params: Seq<Seq<char>>, instrs: Seq<InstrView>) -> Seq<InstrView> {
    alloc_run(instrs, parameter_slots(params), 1).0
}

pub proof fn lemma_compare_not_arithmetic()
    ensures
        !is_arithmetic("cmp"@),
{
    reveal_strlit("cmp");
    reveal_strlit("add");
    reveal_strlit("sub");
    reveal_strlit("mul");
    reveal_strlit("div");
    reveal_strlit("mod");
    assert("cmp"@[0] != "add"@[0]);
    assert("cmp"@[0] != "sub"@[0]);
    assert("cmp"@[1] != "mul"@[1]);
    assert("cmp"@[0] != "div"@[0]);
    assert("cmp"@[1] != "mod"@[1]);
}

// ---------------------------------------------------------------------------
// The map of slots
// ---------------------------------------------------------------------------

pub proof fn lemma_assoc_last(s: Seq<(String, i32)>, name: Seq<char>, j: int)
    requires
        0 <= j < s.len(),
        s[j].0@ == name,
        forall|k: int| j < k < s.len() ==> s[k].0@ != name,
    ensures
        assoc(s).contains_key(name),
        assoc(s)[name] == s[j].1,
    decreases s.len(),
{
    if j < s.len() - 1 {
        lemma_assoc_last(s.drop_last(), name, j);
    }
}

pub proof fn lemma_assoc_none(s: Seq<(String, i32)>, name: Seq<char>)
    requires
        forall|k: int| 0 <= k < s.len() ==> s[k].0@ != name,
    ensures
        !assoc(s).contains_key(name),
    decreases s.len(),
{
    if s.len() > 0 {
        lemma_assoc_none(s.drop_last(), name);
    }
}

/// The slot recorded for `name`, if any.
fn lookup(entries: &Vec<(String, i32)>, name: &String) -> (r: Option<i32>)
    ensures
        match r {
            Some(v) => assoc(entries@).contains_key(name@) && assoc(entries@)[name@] == v,
            None => !assoc(entries@).contains_key(name@),
        },
{
    let mut i = entries.len();
    while i > 0
        invariant
            i <= entries.len(),
            forall|k: int| i <= k < entries.len() ==> entries@[k].0@ != name@,
        decreases i,
    {
        if chars_equal(&string_chars(&entries[i - 1].0), &string_chars(name)) {
            proof {
                lemma_assoc_last(entries@, name@, i - 1);
            }
            return Some(entries[i - 1].1);
        }
        i = i - 1;
    }
    proof {
        lemma_assoc_none(entries@, name@);
    }
    None
}

/// The bounds the slots keep: none is `i32::MIN`, the next free one is small.
pub open spec fn slots_ok(map: Map<Seq<char>, i32>, ptr: nat, bound: nat) -> bool {
    &&& 1 <= ptr <= bound
    &&& forall|k: Seq<char>| map.contains_key(k) ==> map[k] > i32::MIN
}

fn var_location_exec(o: &OperandType, entries: &mut Vec<(String, i32)>, ptr: usize) -> (r: (Option<i32>, usize))
    requires
        1 <= ptr < 0x7fff_fff0,
        forall|k: Seq<char>| assoc(old(entries)@).contains_key(k) ==> assoc(old(entries)@)[k] > i32::MIN,
    ensures
        (r.0, assoc(final(entries)@), r.1 as nat) == var_location(o@, assoc(old(entries)@), ptr as nat),
        r.1 <= ptr + 1,
        forall|k: Seq<char>| assoc(final(entries)@).contains_key(k) ==> assoc(final(entries)@)[k] > i32::MIN,
        r.0 matches Some(v) ==> v > i32::MIN,
{
    if o.is_register() || o.is_memory() {
        return (None, ptr);
    }
    match o {
        OperandType::Identifier { name } => {
            match lookup(entries, name) {
                Some(v) => (Some(v), ptr),
                None => {
                    let ghost before = entries@;
                    entries.push((name.clone(), ptr as i32));
                    assert(entries@.drop_last() =~= before);
                    (Some(ptr as i32), ptr + 1)
                },
            }
        },
        _ => (None, ptr),
    }
}

fn sbp_slot_exec(off: i32) -> (r: OperandType)
    requires
        off != i32::MIN,
    ensures
        r@ == sbp_slot(off),
{
    OperandType::new_stack("SBP", off)
}

fn via_register_exec(loc: Option<i32>, o: &OperandType, register_name: &str, out: &mut Vec<PASMInstruction>) -> (r: OperandType)
    requires
        loc matches Some(v) ==> v != i32::MIN,
    ensures
        instrs_view(final(out)@) == instrs_view(old(out)@) + via_register(loc, o@, register_name@).0,
        r@ == via_register(loc, o@, register_name@).1,
{
    match loc {
        Some(off) => {
            push_instr(out, instr2("mov", reg(register_name), sbp_slot_exec(off)));
            reg(register_name)
        },
        None => {
            if o.is_memory() {
                push_instr(out, instr2("load", reg(register_name), o.duplicate()));
                reg(register_name)
            } else {
                assert(instrs_view(out@) =~= instrs_view(out@) + seq![]);
                o.duplicate()
            }
        },
    }
}

// ---------------------------------------------------------------------------
// Allocation
// ---------------------------------------------------------------------------

/// The rewriting of one instruction that is no label.
fn alloc_instr_exec(
    instruction: &PASMInstruction,
    entries: &mut Vec<(String, i32)>,
    ptr: usize,
) -> (r: (Vec<PASMInstruction>, usize))
    requires
        !instruction.is_label,
        has_operands(instruction@),
        1 <= ptr < 0x7fff_ffe0,
        forall|k: Seq<char>| assoc(old(entries)@).contains_key(k) ==> assoc(old(entries)@)[k] > i32::MIN,
    ensures
        (instrs_view(r.0@), assoc(final(entries)@), r.1 as nat) == alloc_instr(
            instruction@,
            assoc(old(entries)@),
            ptr as nat,
        ),
        r.1 <= ptr + 2,
        forall|k: Seq<char>| assoc(final(entries)@).contains_key(k) ==> assoc(final(entries)@)[k] > i32::MIN,
{
    let ops = &instruction.operands;
    let o = &instruction.opcode;
    let mut out = no_instrs();
    if string_equals(o, "mov") {
        let (l2, p1) = var_location_exec(&ops[1], entries, ptr);
        let src = match l2 {
            Some(off) => sbp_slot_exec(off),
            None => ops[1].duplicate(),
        };
        let frame = ops[0].is_frame_variable();
        match &ops[0] {
            OperandType::Identifier { name } => {
                if frame {
                    let (off, p2) = match lookup(entries, name) {
                        Some(v) => (v, p1),
                        None => {
                            let ghost before = entries@;
                            entries.push((name.clone(), p1 as i32));
                            assert(entries@.drop_last() =~= before);
                            (p1 as i32, p1 + 1)
                        },
                    };
                    push_instr(&mut out, instr2("mov", sbp_slot_exec(off), src));
                    return (out, p2);
                }
            },
            _ => {},
        }
        push_instr(&mut out, instr2("mov", ops[0].duplicate(), src));
        assert((instrs_view(out@), assoc(entries@), p1 as nat) == alloc_instr(instruction@, assoc(old(entries)@), ptr as nat));
        (out, p1)
    } else if string_equals(o, "load") {
        let (l1, p1) = var_location_exec(&ops[0], entries, ptr);
        let dest = if l1.is_some() {
            OperandType::Identifier { name: to_owned_string("'GPA") }
        } else {
            ops[0].duplicate()
        };
        push_instr(&mut out, instr2("load", dest, ops[1].duplicate()));
        match l1 {
            Some(off) => {
                push_instr(
                    &mut out,
                    instr2("mov", sbp_slot_exec(off), OperandType::Identifier { name: to_owned_string("'GPA") }),
                );
            },
            None => {},
        }
        assert((instrs_view(out@), assoc(entries@), p1 as nat) == alloc_instr(instruction@, assoc(old(entries)@), ptr as nat));
        (out, p1)
    } else if string_equals(o, "store") {
        let (l2, p1) = var_location_exec(&ops[1], entries, ptr);
        let src = match l2 {
            Some(off) => sbp_slot_exec(off),
            None => ops[1].duplicate(),
        };
        push_instr(&mut out, instr2("store", ops[0].duplicate(), src));
        assert((instrs_view(out@), assoc(entries@), p1 as nat) == alloc_instr(instruction@, assoc(old(entries)@), ptr as nat));
        (out, p1)
    } else if string_equals(o, "add") || string_equals(o, "sub") || string_equals(o, "mul")
        || string_equals(o, "div") || string_equals(o, "mod") || string_equals(o, "cmp") {
        let arithmetic = !string_equals(o, "cmp");
        proof {
            lemma_compare_not_arithmetic();
        }
        assert(arithmetic == is_arithmetic(o@));
        let (l1, p1) = var_location_exec(&ops[0], entries, ptr);
        let (l2, p2) = var_location_exec(&ops[1], entries, p1);
        let o1 = via_register_exec(l1, &ops[0], "GPA", &mut out);
        let o2 = via_register_exec(l2, &ops[1], "GPB", &mut out);
        let ghost pre1 = via_register(l1, ops@[0]@, "GPA"@).0;
        let ghost pre2 = via_register(l2, ops@[1]@, "GPB"@).0;
        let ghost mid = op(o@, seq![o1@, o2@]);
        assert(instrs_view(out@) =~= pre1 + pre2);
        push_instr(&mut out, instr2_owned(o, o1, o2));
        let ghost back: Seq<InstrView> = seq![];
        match l1 {
            Some(off) => {
                if arithmetic {
                    push_instr(&mut out, instr2("mov", sbp_slot_exec(off), reg("GPA")));
                    proof {
                        back = seq![op("mov"@, seq![sbp_slot(off), register("GPA"@)])];
                    }
                }
            },
            None => {},
        }
        assert(instrs_view(out@) =~= pre1 + pre2 + seq![mid] + back);
        assert((instrs_view(out@), assoc(entries@), p2 as nat) == alloc_instr(instruction@, assoc(old(entries)@), ptr as nat));
        (out, p2)
    } else if string_equals(o, "push") || string_equals(o, "print") {
        let (l1, p1) = var_location_exec(&ops[0], entries, ptr);
        let o1 = via_register_exec(l1, &ops[0], "GPA", &mut out);
        push_instr(&mut out, instr1_owned(o, o1));
        assert((instrs_view(out@), assoc(entries@), p1 as nat) == alloc_instr(instruction@, assoc(old(entries)@), ptr as nat));
        (out, p1)
    } else {
        push_instr(&mut out, instruction.duplicate());
        assert((instrs_view(out@), assoc(entries@), ptr as nat) == alloc_instr(instruction@, assoc(old(entries)@), ptr as nat));
        (out, ptr)
    }
}

fn instr2_owned(opcode: &String, a: OperandType, b: OperandType) -> (r: PASMInstruction)
    ensures
        r@ == op(opcode@, seq![a@, b@]),
{
    let mut v: Vec<OperandType> = Vec::new();
    v.push(a);
    v.push(b);
    assert(operands_view(v@) =~= seq![a@, b@]);
    PASMInstruction::new(opcode.clone(), v)
}

fn instr1_owned(opcode: &String, a: OperandType) -> (r: PASMInstruction)
    ensures
        r@ == op(opcode@, seq![a@]),
{
    let mut v: Vec<OperandType> = Vec::new();
    v.push(a);
    assert(operands_view(v@) =~= seq![a@]);
    PASMInstruction::new(opcode.clone(), v)
}

/// Gives every variable of a function a stack slot, and rewrites each
/// instruction to use the slots (see [`allocation`]).
pub fn allocate(function: &PASMFunction) -> (r: Result<Vec<PASMInstruction>, String>)
    requires
        function.instructions.len() < 0x1000_0000,
        function.parameters.len() < 0x1000_0000,
        forall|k: int| 0 <= k < function.instructions.len() ==> has_operands(#[trigger] function.instructions@[k]@),
    ensures
        r matches Ok(v) && instrs_view(v@) == allocation(
            names_view(function.parameters@),
            instrs_view(function.instructions@),
        ),
{
    let mut entries: Vec<(String, i32)> = Vec::new();
    let ghost pv = names_view(function.parameters@);
    let mut index: usize = 0;
    while index < function.parameters.len()
        invariant
            index <= function.parameters.len(),
            function.parameters.len() < 0x1000_0000,
            pv == names_view(function.parameters@),
            assoc(entries@) == parameter_slots(pv.take(index as int)),
            forall|k: Seq<char>| assoc(entries@).contains_key(k) ==> assoc(entries@)[k] > i32::MIN,
        decreases function.parameters.len() - index,
    {
        let slot: i32 = -((index as i32) + 2);
        let ghost before = entries@;
        entries.push((function.parameters[index].clone(), slot));
        assert(pv.take(index + 1).drop_last() =~= pv.take(index as int));
        assert(entries@.drop_last() =~= before);
        index = index + 1;
    }
    assert(pv.take(pv.len() as int) =~= pv);
    let ghost iv = instrs_view(function.instructions@);
    let mut next: Vec<PASMInstruction> = Vec::new();
    let mut ptr: usize = 1;
    let mut i: usize = 0;
    assert(instrs_view(next@) =~= seq![]);
    while i < function.instructions.len()
        invariant
            i <= function.instructions.len(),
            function.instructions.len() < 0x1000_0000,
            iv == instrs_view(function.instructions@),
            forall|k: int| 0 <= k < function.instructions.len() ==> has_operands(#[trigger] function.instructions@[k]@),
            1 <= ptr <= 1 + 2 * i,
            forall|k: Seq<char>| assoc(entries@).contains_key(k) ==> assoc(entries@)[k] > i32::MIN,
            alloc_run(iv.take(i as int), parameter_slots(pv), 1) == (instrs_view(next@), assoc(entries@), ptr as nat),
        decreases function.instructions.len() - i,
    {
        assert(iv.take(i + 1).drop_last() =~= iv.take(i as int));
        let instruction = &function.instructions[i];
        assert(has_operands(instruction@));
        if instruction.is_label {
            let ghost before = instrs_view(next@);
            push_instr(&mut next, instruction.duplicate());
        } else {
            push_instr(&mut next, PASMInstruction::new_comment(instruction.to_string()));
            let (out, p) = alloc_instr_exec(instruction, &mut entries, ptr);
            let tagged = tag_instructions_with_span(out, instruction.span);
            append_instrs(&mut next, tagged);
            ptr = p;
        }
        i = i + 1;
    }
    assert(iv.take(function.instructions.len() as int) =~= iv);
    Ok(next)
}


/// The names of the labels of a list of instructions, in order.
pub open spec fn label_names(s: Seq<InstrView>) -> Seq<Seq<char>>
    decreases s.len(),
{
    if s.len() == 0 {
        seq![]
    } else if s.last().is_label {
        label_names(s.drop_last()).push(s.last().opcode)
    } else {
        label_names(s.drop_last())
    }
}

/// Whether no instruction of a list is a label.
pub open spec fn no_labels(s: Seq<InstrView>) -> bool {
    forall|k: int| 0 <= k < s.len() ==> !(#[trigger] s[k]).is_label
}

/// The labels of two lists one after the other.
proof fn lemma_label_names_concat(a: Seq<InstrView>, b: Seq<InstrView>)
    ensures
        label_names(a + b) == label_names(a) + label_names(b),
    decreases b.len(),
{
    if b.len() == 0 {
        assert(a + b =~= a);
    } else {
        lemma_label_names_concat(a, b.drop_last());
        assert((a + b).drop_last() =~= a + b.drop_last());
    }
}

/// A list without labels has no label names.
proof fn lemma_no_label_names(s: Seq<InstrView>)
    requires
        no_labels(s),
    ensures
        label_names(s) == Seq::<Seq<char>>::empty(),
    decreases s.len(),
{
    if s.len() > 0 {
        assert(no_labels(s.drop_last()));
        lemma_no_label_names(s.drop_last());
    }
}

/// What stands for an instruction that is not a label holds no label.
proof fn lemma_alloc_instr_no_labels(i: InstrView, map: Map<Seq<char>, i32>, ptr: nat)
    requires
        !i.is_label,
    ensures
        no_labels(alloc_instr(i, map, ptr).0),
{
}

/// Once a variable has a slot, the allocation of an instruction keeps it.
proof fn lemma_alloc_instr_keeps_slots(i: InstrView, map: Map<Seq<char>, i32>, ptr: nat)
    ensures
        forall|name: Seq<char>|
            map.contains_key(name) ==> #[trigger] alloc_instr(i, map, ptr).1.contains_key(name)
                && alloc_instr(i, map, ptr).1[name] == map[name],
{
}

/// Allocating the stack slots of a function keeps its labels, in order: the
/// instructions that stand for the others hold none.
pub proof fn lemma_allocation_keeps_labels(s: Seq<InstrView>, map: Map<Seq<char>, i32>, ptr: nat)
    ensures
        label_names(alloc_run(s, map, ptr).0) == label_names(s),
    decreases s.len(),
{
    if s.len() > 0 {
        lemma_allocation_keeps_labels(s.drop_last(), map, ptr);
        let (o, m, p) = alloc_run(s.drop_last(), map, ptr);
        let (o2, m2, p2) = alloc_one(s.last(), m, p);
        lemma_label_names_concat(o, o2);
        if s.last().is_label {
            assert(o2 == seq![s.last()]);
            assert(o2.drop_last() =~= Seq::<InstrView>::empty());
            assert(label_names(o2.drop_last()) == Seq::<Seq<char>>::empty());
            assert(label_names(o2) =~= seq![s.last().opcode]);
            assert(label_names(s) == label_names(s.drop_last()).push(s.last().opcode));
        } else {
            let (out, m1, p1) = alloc_instr(s.last(), m, p);
            lemma_alloc_instr_no_labels(s.last(), m, p);
            assert(no_labels(o2)) by {
                assert forall|k: int| 0 <= k < o2.len() implies !(#[trigger] o2[k]).is_label by {
                    if k > 0 {
                        assert(o2[k] == tag(out, s.last().span)[k - 1]);
                        assert(!out[k - 1].is_label);
                    }
                }
            }
            lemma_no_label_names(o2);
            assert(label_names(s) == label_names(s.drop_last()));
        }
        assert(label_names(o + o2) =~= label_names(o) + label_names(o2));
    }
}

/// Allocating the stack slots of a function never moves a variable: once it
/// has a slot, it keeps it.
pub proof fn lemma_allocation_keeps_slots(s: Seq<InstrView>, map: Map<Seq<char>, i32>, ptr: nat, name: Seq<char>)
    requires
        map.contains_key(name),
    ensures
        alloc_run(s, map, ptr).1.contains_key(name),
        alloc_run(s, map, ptr).1[name] == map[name],
    decreases s.len(),
{
    if s.len() > 0 {
        lemma_allocation_keeps_slots(s.drop_last(), map, ptr, name);
        let (o, m, p) = alloc_run(s.drop_last(), map, ptr);
        if !s.last().is_label {
            lemma_alloc_instr_keeps_slots(s.last(), m, p);
        }
    }
}

proof fn lemma_arithmetic_opcodes_differ(o: Seq<char>)
    requires
        is_arithmetic(o),
    ensures
        o != "mov"@,
        o != "load"@,
        o != "store"@,
        o.len() == 3,
{
    reveal_strlit("add");
    reveal_strlit("sub");
    reveal_strlit("mul");
    reveal_strlit("div");
    reveal_strlit("mod");
    reveal_strlit("mov");
    reveal_strlit("load");
    reveal_strlit("store");
    assert(o[0] != "mov"@[0] || o[1] != "mov"@[1] || o[2] != "mov"@[2]);
    assert("store"@.len() == 5 && "load"@.len() == 4);
}

/// An arithmetic instruction (`add`, `sub`, `mul`, `div`, `mod`) on a frame
/// variable updates that variable: its rewriting first reads the variable's
/// slot into `GPA`, then computes into `GPA`, and ends by storing `GPA` back
/// into the same slot, so the slot holds the result afterwards. A variable
/// that already had a slot keeps it.
pub proof fn lemma_arithmetic_stores_back(i: InstrView, map: Map<Seq<char>, i32>, ptr: nat)
    requires
        is_arithmetic(i.opcode),
        i.operands.len() >= 2,
        i.operands[0] is Identifier,
        !names_register(i.operands[0]),
        !names_memory(i.operands[0]),
    ensures
        ({
            let (out, m, _) = alloc_instr(i, map, ptr);
            let name = i.operands[0]->Identifier_name;
            &&& m.contains_key(name)
            &&& map.contains_key(name) ==> m[name] == map[name]
            &&& out.len() >= 3
            &&& out[0] == op("mov"@, seq![register("GPA"@), sbp_slot(m[name])])
            &&& out[out.len() - 2].opcode == i.opcode
            &&& out[out.len() - 2].operands[0] == register("GPA"@)
            &&& out[out.len() - 1] == op("mov"@, seq![sbp_slot(m[name]), register("GPA"@)])
        }),
{
    lemma_arithmetic_opcodes_differ(i.opcode);
    let ops = i.operands;
    let name = ops[0]->Identifier_name;
    let (l1, m1, p1) = var_location(ops[0], map, ptr);
    let (l2, m2, p2) = var_location(ops[1], m1, p1);
    assert(m1.contains_key(name) && l1 == Some(m1[name]));
    assert(m2.contains_key(name) && m2[name] == m1[name]);
    let (pre1, o1) = via_register(l1, ops[0], "GPA"@);
    let (pre2, o2) = via_register(l2, ops[1], "GPB"@);
    let out = alloc_instr(i, map, ptr).0;
    let back = seq![op("mov"@, seq![sbp_slot(m1[name]), register("GPA"@)])];
    assert(out == pre1 + pre2 + seq![op(i.opcode, seq![o1, o2])] + back);
    assert(out[0] == pre1[0]);
    assert(out[out.len() - 2] == op(i.opcode, seq![o1, o2]));
}

/// Whether an operand names a variable of the stack frame.
pub open spec fn frame_variable(o: OperandView) -> bool {
    o is Identifier && !names_register(o) && !names_memory(o)
}

/// The second operand of an arithmetic instruction or a comparison, when it
/// is a frame variable, is read from its slot into `GPB`, and the operation
/// uses `GPB`. A comparison writes no slot: it ends with the comparison
/// itself and moves nothing to the stack.
pub proof fn lemma_operations_read_slots(i: InstrView, map: Map<Seq<char>, i32>, ptr: nat)
    requires
        is_arithmetic(i.opcode) || i.opcode == "cmp"@,
        i.operands.len() >= 2,
    ensures
        ({
            let (out, m, _) = alloc_instr(i, map, ptr);
            let k = if is_arithmetic(i.opcode) && frame_variable(i.operands[0]) {
                out.len() - 2
            } else {
                out.len() - 1
            };
            &&& 0 <= k < out.len()
            &&& out[k].opcode == i.opcode
            &&& frame_variable(i.operands[1]) ==> {
                let name = i.operands[1]->Identifier_name;
                &&& m.contains_key(name)
                &&& out[k].operands[1] == register("GPB"@)
                &&& out[k - 1] == op("mov"@, seq![register("GPB"@), sbp_slot(m[name])])
            }
            &&& i.opcode == "cmp"@ ==> k == out.len() - 1 && forall|j: int|
                0 <= j < out.len() && out[j].opcode == "mov"@ ==> (#[trigger] out[j]).operands[0]
                    is Register
        }),
{
    lemma_compare_not_arithmetic();
    if is_arithmetic(i.opcode) {
        lemma_arithmetic_opcodes_differ(i.opcode);
    } else {
        lemma_compare_not_arithmetic();
        reveal_strlit("cmp");
        reveal_strlit("mov");
        reveal_strlit("load");
        reveal_strlit("store");
        assert(i.opcode != "mov"@ && i.opcode != "load"@ && i.opcode != "store"@) by {
            assert("cmp"@[0] != "mov"@[0]);
        }
    }
    let ops = i.operands;
    let (l1, m1, p1) = var_location(ops[0], map, ptr);
    let (l2, m2, p2) = var_location(ops[1], m1, p1);
    let (pre1, o1) = via_register(l1, ops[0], "GPA"@);
    let (pre2, o2) = via_register(l2, ops[1], "GPB"@);
    let back = match l1 {
        Some(off) => if is_arithmetic(i.opcode) {
            seq![op("mov"@, seq![sbp_slot(off), register("GPA"@)])]
        } else {
            seq![]
        },
        None => seq![],
    };
    let out = alloc_instr(i, map, ptr).0;
    assert(out == pre1 + pre2 + seq![op(i.opcode, seq![o1, o2])] + back);
    assert(frame_variable(ops[0]) <==> l1 is Some);
    assert(pre2.len() == 1 || !frame_variable(ops[1]));
    if frame_variable(ops[1]) {
        assert(l2 is Some);
    }
    let k = (pre1.len() + pre2.len()) as int;
    assert(out[k] == op(i.opcode, seq![o1, o2]));
    if i.opcode == "cmp"@ {
        assert forall|j: int| 0 <= j < out.len() && out[j].opcode == "mov"@ implies (
        #[trigger] out[j]).operands[0] is Register by {
            assert(back.len() == 0);
            assert(out.len() == k + 1);
            if j < pre1.len() {
                assert(out[j] == pre1[j]);
                assert(pre1[j].operands[0] is Register);
            } else if j < k {
                assert(out[j] == pre2[j - pre1.len()]);
                assert(pre2[j - pre1.len()].operands[0] is Register);
            } else {
                assert(j == k);
                assert(out[j].opcode == "cmp"@);
                assert(false);
            }
        }
    }
}

/// A `mov` to a frame variable writes the variable's slot (given one when it
/// has none), reading a frame variable source from its own slot; a variable
/// that already had a slot keeps it.
pub proof fn lemma_mov_writes_variable_slot(i: InstrView, map: Map<Seq<char>, i32>, ptr: nat)
    requires
        i.opcode == "mov"@,
        i.operands.len() >= 2,
        frame_variable(i.operands[0]),
    ensures
        ({
            let (out, m, _) = alloc_instr(i, map, ptr);
            let x = i.operands[0]->Identifier_name;
            let src = if frame_variable(i.operands[1]) {
                sbp_slot(m[i.operands[1]->Identifier_name])
            } else {
                i.operands[1]
            };
            &&& m.contains_key(x)
            &&& map.contains_key(x) ==> m[x] == map[x]
            &&& frame_variable(i.operands[1]) ==> m.contains_key(i.operands[1]->Identifier_name)
            &&& out == seq![op("mov"@, seq![sbp_slot(m[x]), src])]
        }),
{
}

} // verus!
