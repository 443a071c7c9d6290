//! The virtual machine: six registers, a stack of 256 values, 65536 memory
//! cells, flags, and a loaded program.
use vstd::prelude::*;

use super::enums::{Flags, MachineStatus, OpCodes, OperandType};
use super::instruction::Instruction;
use super::step::{
    arithmetic, arithmetic_name, arithmetic_step, commit, div_toward_zero, execute, flag_of, flag_set, get_stack,
    invalid, jump_step, memory_at, pop, program_len, push, read_operand, reg_read, reg_write,
    rem_toward_zero, set_stack, stack_index, step, well_sized, with_flag, lemma_execute_keeps_shape, Flow, VMState,
    Work,
};
use crate::text::{
    extend_chars, int_chars, nat_digits, push_int_chars, push_nat_digits, str_chars,
    string_from_chars, to_owned_string,
};

verus! {

/// The work of a step, as executable values.
struct WorkExec {
    regs: Vec<i32>,
    stack_write: Option<(usize, i32)>,
    memory_write: Option<(usize, i32)>,
    next_flags: u8,
    status: MachineStatus,
    output: Option<String>,
}

impl View for WorkExec {
    type V = Work;

    closed spec fn view(&self) -> Work {
        Work {
            regs: self.regs@,
            stack_write: self.stack_write,
            memory_write: self.memory_write,
            next_flags: self.next_flags,
            status: self.status,
            output: match self.output {
                Some(s) => Some(s@),
                None => None,
            },
        }
    }
}

/// A part of a step, as executable values.
enum FlowExec<T> {
    Fault,
    Fail(WorkExec, String),
    Done(WorkExec, T),
}

/// Whether the writes of a step fall inside the stack and the memory.
spec fn fits(w: Work) -> bool {
    &&& (w.stack_write matches Some((i, _)) ==> i < 256)
    &&& (w.memory_write matches Some((i, _)) ==> i < 65536)
}

/// Whether executable work has six registers and writes that fit.
spec fn ok(w: WorkExec) -> bool {
    w.regs.len() == 6 && fits(w@)
}

/// Whether an executable part of a step is the one the spec gives.
spec fn flow_is<T>(r: FlowExec<T>, f: Flow<T>) -> bool {
    match f {
        Flow::Fault => r is Fault,
        Flow::Fail(w, m) => (r matches FlowExec::Fail(x, s) && x@ == w && s@ == m && ok(x)),
        Flow::Done(w, v) => (r matches FlowExec::Done(x, u) && x@ == w && u == v && ok(x)),
    }
}

/// The virtual machine.
pub struct VirtualMachine {
    registers: Vec<i32>,
    stack: Vec<i32>,
    flags: u8,
    next_flags: u8,
    memory: Vec<i32>,
    status: MachineStatus,
    program: Option<Vec<Instruction>>,
    current_output: Option<String>,
}

impl View for VirtualMachine {
    type V = VMState;

    closed spec fn view(&self) -> VMState {
        VMState {
            registers: self.registers@,
            stack: self.stack@,
            flags: self.flags,
            next_flags: self.next_flags,
            memory: self.memory@,
            status: self.status,
            program: match self.program {
                Some(p) => Some(p@),
                None => None,
            },
            output: match self.current_output {
                Some(s) => Some(s@),
                None => None,
            },
        }
    }
}


/// The state of a new machine: all zero but the stack pointer, at the top of
/// the stack; no program.
pub open spec fn initial_state() -> VMState {
    VMState {
        registers: seq![0, 0, 0, 256, 0, 0],
        stack: Seq::new(256, |i: int| 0i32),
        flags: 0,
        next_flags: 0,
        memory: Seq::new(65536, |i: int| 0i32),
        status: MachineStatus::Empty,
        program: None,
        output: None,
    }
}

/// The name of a status.
pub open spec fn status_name(s: MachineStatus) -> Seq<char> {
    match s {
        MachineStatus::Empty => "Empty"@,
        MachineStatus::Ready => "Ready"@,
        MachineStatus::Running => "Running"@,
        MachineStatus::Dead => "Dead"@,
        MachineStatus::Complete => "Complete"@,
    }
}

/// `t` or `f`.
pub open spec fn yes_no(b: bool) -> Seq<char> {
    if b {
        "t"@
    } else {
        "f"@
    }
}

/// The flags in the order the machine shows them.
pub open spec fn flag_order(k: int) -> Flags {
    if k == 0 {
        Flags::ZeroFlag
    } else if k == 1 {
        Flags::NegativeFlag
    } else {
        Flags::PositiveFlag
    }
}

/// A line of the flags: the flag's name, whether it is set now and whether it
/// is set for the next step.
pub open spec fn flag_row(row: (String, String, String), f: Flags, s: VMState) -> bool {
    &&& row.0@ == f.spec_name()
    &&& row.1@ == yes_no(flag_set(s.flags, f))
    &&& row.2@ == yes_no(flag_set(s.next_flags, f))
}

/// A number right-aligned on five characters.
pub open spec fn padded(v: i32) -> Seq<char> {
    let t = int_chars(v as int);
    Seq::new(if t.len() < 5 { (5 - t.len()) as nat } else { 0 }, |i: int| ' ') + t
}

/// The registers, one per line, with their names.
pub open spec fn registers_text(r: Seq<i32>) -> Seq<char> {
    "GPA: "@ + padded(r[0]) + "\nGPB: "@ + padded(r[1]) + "\nSBP: "@ + padded(r[2]) + "\nTSP: "@
        + padded(r[3]) + "\nFRV: "@ + padded(r[4]) + "\nCIP: "@ + padded(r[5])
}

/// The stack values from `from` up to `to` (excluded), one per line: `[i] = value`.
pub open spec fn frame_text(stack: Seq<i32>, from: int, to: int) -> Seq<char>
    decreases to - from,
{
    if from >= to {
        seq![]
    } else {
        "["@ + int_chars(from) + "] = "@ + int_chars(stack[from] as int) + "\n"@ + frame_text(
            stack,
            from + 1,
            to,
        )
    }
}

fn zeros(n: usize) -> (r: Vec<i32>)
    ensures
        r@ == Seq::new(n as nat, |i: int| 0i32),
{
    let mut v: Vec<i32> = Vec::new();
    let mut i: usize = 0;
    while i < n
        invariant
            i <= n,
            v@ == Seq::new(i as nat, |k: int| 0i32),
        decreases n - i,
    {
        v.push(0);
        i = i + 1;
        assert(v@ =~= Seq::new(i as nat, |k: int| 0i32));
    }
    v
}

fn copy_string(s: &Option<String>) -> (r: Option<String>)
    ensures
        match (r, *s) {
            (Some(a), Some(b)) => a@ == b@,
            (None, None) => true,
            _ => false,
        },
{
    match s {
        Some(x) => Some(x.clone()),
        None => None,
    }
}

// ---------------------------------------------------------------------------
// The parts of a step
// ---------------------------------------------------------------------------

fn dies_exec<T>(w: WorkExec, msg: String) -> (r: FlowExec<T>)
    requires
        ok(w),
    ensures
        flow_is(r, super::step::dies(w@, msg@)),
{
    let mut w = w;
    w.status = MachineStatus::Dead;
    FlowExec::Fail(w, msg)
}

fn invalid_exec<T>(w: WorkExec, msg: &str) -> (r: FlowExec<T>)
    requires
        ok(w),
    ensures
        flow_is(r, invalid(w@, msg@)),
{
    invalid_text(w, &str_chars(msg))
}

fn stack_index_exec(w: WorkExec, base: usize, addition: bool, offset: usize) -> (r: FlowExec<usize>)
    requires
        ok(w),
    ensures
        flow_is(r, stack_index(w@, base, addition, offset)),
{
    if base >= 6 {
        return FlowExec::Fault;
    }
    let o = offset as i32;
    let v = w.regs[base] as i64;
    let r: i64 = if addition { v + o as i64 } else { v - o as i64 };
    if r < -2147483648 || r > 2147483647 {
        return FlowExec::Fault;
    }
    if r < 0 {
        return dies_exec(w, to_owned_string("Stack underflow"));
    }
    FlowExec::Done(w, r as usize)
}

fn get_stack_exec(vm: &VirtualMachine, w: WorkExec, base: usize, addition: bool, offset: usize) -> (r:
    FlowExec<i32>)
    requires
        ok(w),
        well_sized(vm@),
    ensures
        flow_is(r, get_stack(vm@, w@, base, addition, offset)),
{
    match stack_index_exec(w, base, addition, offset) {
        FlowExec::Fault => FlowExec::Fault,
        FlowExec::Fail(w1, m) => FlowExec::Fail(w1, m),
        FlowExec::Done(w1, i) => {
            if i < 256 {
                FlowExec::Done(w1, vm.stack[i])
            } else {
                let mut msg = str_chars("Unable to get stack value at index: ");
                push_nat_digits(&mut msg, i as u64);
                dies_exec(w1, string_from_chars(&msg))
            }
        },
    }
}

fn set_stack_exec(w: WorkExec, base: usize, addition: bool, offset: usize, value: i32) -> (r: FlowExec<()>)
    requires
        ok(w),
    ensures
        flow_is(r, set_stack(w@, base, addition, offset, value)),
{
    match stack_index_exec(w, base, addition, offset) {
        FlowExec::Fault => FlowExec::Fault,
        FlowExec::Fail(w1, m) => FlowExec::Fail(w1, m),
        FlowExec::Done(w1, i) => {
            if i < 256 {
                let mut w2 = w1;
                w2.stack_write = Some((i, value));
                FlowExec::Done(w2, ())
            } else {
                let mut msg = str_chars("Unable to set stack value at index: ");
                push_nat_digits(&mut msg, i as u64);
                dies_exec(w1, string_from_chars(&msg))
            }
        },
    }
}

fn push_exec(w: WorkExec, value: i32) -> (r: FlowExec<()>)
    requires
        ok(w),
    ensures
        flow_is(r, push(w@, value)),
{
    let tsp = w.regs[3];
    if tsp == i32::MIN {
        return FlowExec::Fault;
    }
    if tsp - 1 < 0 {
        return FlowExec::Fail(w, to_owned_string("Stack overflow"));
    }
    if tsp - 1 >= 256 {
        return FlowExec::Fault;
    }
    let mut w = w;
    w.regs.set(3, tsp - 1);
    w.stack_write = Some(((tsp - 1) as usize, value));
    FlowExec::Done(w, ())
}

fn pop_exec(vm: &VirtualMachine, w: WorkExec) -> (r: FlowExec<i32>)
    requires
        ok(w),
        well_sized(vm@),
    ensures
        flow_is(r, pop(vm@, w@)),
{
    let tsp = w.regs[3];
    if tsp == i32::MAX {
        return FlowExec::Fault;
    }
    if tsp + 1 < 0 || tsp + 1 > 256 {
        return FlowExec::Fail(w, to_owned_string("Stack underflow"));
    }
    if tsp < 0 {
        return FlowExec::Fault;
    }
    let value = vm.stack[tsp as usize];
    let mut w = w;
    w.regs.set(3, tsp + 1);
    FlowExec::Done(w, value)
}

fn read_operand_exec(vm: &VirtualMachine, w: WorkExec, o: OperandType, msg: &str) -> (r: FlowExec<i32>)
    requires
        ok(w),
        well_sized(vm@),
    ensures
        flow_is(r, read_operand(vm@, w@, o, msg@)),
{
    match o {
        OperandType::Register { idx } => {
            if idx < 6 {
                let v = w.regs[idx];
                FlowExec::Done(w, v)
            } else {
                FlowExec::Fault
            }
        },
        OperandType::Literal { value } => FlowExec::Done(w, value),
        OperandType::StackValue { base_register, addition, offset } => get_stack_exec(
            vm,
            w,
            base_register,
            addition,
            offset,
        ),
        OperandType::NoOperand => invalid_exec(w, msg),
    }
}

/// Division rounding toward zero, for a divisor that is not zero and a pair
/// that does not overflow.
fn divide(a: i32, b: i32) -> (r: i32)
    requires
        b != 0,
        !(a == i32::MIN && b == -1),
    ensures
        r == div_toward_zero(a, b),
{
    let ua: u64 = if a >= 0 { a as u64 } else { (-(a as i64)) as u64 };
    let ub: u64 = if b >= 0 { b as u64 } else { (-(b as i64)) as u64 };
    let q: u64 = ua / ub;
    assert(q <= ua) by (nonlinear_arith)
        requires
            ub >= 1,
            q == ua / ub,
    ;
    if (a >= 0) == (b >= 0) {
        assert(q <= 0x7fff_ffff) by (nonlinear_arith)
            requires
                ub >= 1,
                q == ua / ub,
                (a >= 0 && ua == a) || (a < 0 && b < 0 && ua == -a && ub == -b && ub >= 2) || (a < 0 && b < 0 && ub == 1 && a != i32::MIN && ua == -a),
        {
            if ub >= 2 {
                assert(ua / ub <= ua / 2);
            }
        }
        q as i32
    } else {
        let n: i64 = -(q as i64);
        n as i32
    }
}

fn arithmetic_name_exec(op: OpCodes) -> (r: &'static str)
    ensures
        r@ == arithmetic_name(op),
{
    match op {
        OpCodes::ADD => "add",
        OpCodes::SUB => "sub",
        OpCodes::MUL => "mul",
        OpCodes::DIV => "div",
        _ => "mod",
    }
}

fn arithmetic_exec(op: OpCodes, a: i32, b: i32) -> (r: Option<i32>)
    requires
        op == OpCodes::ADD || op == OpCodes::SUB || op == OpCodes::MUL || op == OpCodes::DIV || op
            == OpCodes::MOD,
    ensures
        r == arithmetic(op, a, b),
{
    match op {
        OpCodes::DIV => {
            if b == 0 || (a == i32::MIN && b == -1) {
                None
            } else {
                Some(divide(a, b))
            }
        },
        OpCodes::MOD => {
            if b == 0 || (a == i32::MIN && b == -1) {
                None
            } else {
                let q = divide(a, b);
                assert(-0x4000_0000_0000_0000 <= q * b <= 0x4000_0000_0000_0000) by (nonlinear_arith)
                    requires
                        -0x8000_0000 <= q <= 0x7fff_ffff,
                        -0x8000_0000 <= b <= 0x7fff_ffff,
                {
                    vstd::arithmetic::mul::lemma_mul_upper_bound(
                        if q >= 0 { q as int } else { -q },
                        0x8000_0000,
                        if b >= 0 { b as int } else { -b },
                        0x8000_0000,
                    );
                }
                let r: i128 = a as i128 - (q as i128) * (b as i128);
                Some(r as i32)
            }
        },
        OpCodes::ADD => a.checked_add(b),
        OpCodes::SUB => a.checked_sub(b),
        _ => a.checked_mul(b),
    }
}

fn reg_read_exec(w: WorkExec, idx: usize) -> (r: FlowExec<i32>)
    requires
        ok(w),
    ensures
        flow_is(r, reg_read(w@, idx)),
{
    if idx < 6 {
        let v = w.regs[idx];
        FlowExec::Done(w, v)
    } else {
        FlowExec::Fault
    }
}

fn reg_write_exec(w: WorkExec, idx: usize, value: i32) -> (r: FlowExec<()>)
    requires
        ok(w),
    ensures
        flow_is(r, reg_write(w@, idx, value)),
{
    if idx < 6 {
        let mut w = w;
        w.regs.set(idx, value);
        FlowExec::Done(w, ())
    } else {
        FlowExec::Fault
    }
}

/// The message of a wrong instruction, as [`invalid`] gives it.
fn invalid_text<T>(w: WorkExec, msg: &Vec<char>) -> (r: FlowExec<T>)
    requires
        ok(w),
    ensures
        flow_is(r, invalid(w@, msg@)),
{
    let mut text = str_chars("FATAL: ");
    extend_chars(&mut text, msg);
    extend_chars(&mut text, &str_chars(" (CIP: "));
    push_int_chars(&mut text, w.regs[5] as i64);
    extend_chars(&mut text, &str_chars(")"));
    let mut w = w;
    w.status = MachineStatus::Dead;
    FlowExec::Fail(w, string_from_chars(&text))
}

/// The message of a missing operand of an arithmetic instruction.
fn missing_operand(which: &str, op: OpCodes) -> (r: Vec<char>)
    ensures
        r@ == which@ + arithmetic_name(op) + " instruction"@,
{
    let mut text = str_chars(which);
    extend_chars(&mut text, &str_chars(arithmetic_name_exec(op)));
    extend_chars(&mut text, &str_chars(" instruction"));
    text
}

fn with_flag_exec(w: WorkExec, v: i32) -> (r: WorkExec)
    ensures
        r@ == with_flag(w@, v as int),
        r.regs.len() == w.regs.len(),
{
    let f: u8 = if v == 0 {
        1
    } else if v < 0 {
        2
    } else {
        4
    };
    let mut w = w;
    w.next_flags = w.next_flags | f;
    w
}

fn arithmetic_step_exec(w: WorkExec, i: Instruction) -> (r: FlowExec<i32>)
    requires
        ok(w),
        i.opcode == OpCodes::ADD || i.opcode == OpCodes::SUB || i.opcode == OpCodes::MUL
            || i.opcode == OpCodes::DIV || i.opcode == OpCodes::MOD,
    ensures
        flow_is(r, arithmetic_step(w@, i)),
{
    match i.operand_1 {
        OperandType::Register { idx: op1 } => {
            if op1 >= 6 {
                return FlowExec::Fault;
            }
            let a = w.regs[op1];
            let b = match i.operand_2 {
                OperandType::Register { idx } => reg_read_exec(w, idx),
                OperandType::Literal { value } => FlowExec::Done(w, value),
                OperandType::StackValue { .. } => invalid_text(
                    w,
                    &str_chars("Cannot use stack operation as operand for arithmetic instruction"),
                ),
                OperandType::NoOperand => invalid_text(
                    w,
                    &missing_operand("Missing second operand for ", i.opcode),
                ),
            };
            match b {
                FlowExec::Fault => FlowExec::Fault,
                FlowExec::Fail(w1, m) => FlowExec::Fail(w1, m),
                FlowExec::Done(w1, bv) => match arithmetic_exec(i.opcode, a, bv) {
                    None => FlowExec::Fault,
                    Some(res) => {
                        let mut w2 = w1;
                        w2.regs.set(op1, res);
                        FlowExec::Done(with_flag_exec(w2, res), 1)
                    },
                },
            }
        },
        _ => invalid_text(w, &missing_operand("Missing first operand for ", i.opcode)),
    }
}

fn mov_exec(vm: &VirtualMachine, w: WorkExec, i: Instruction) -> (r: FlowExec<i32>)
    requires
        ok(w),
        well_sized(vm@),
        i.opcode == OpCodes::MOV,
    ensures
        flow_is(r, execute(vm@, w@, i)),
{
    match read_operand_exec(vm, w, i.operand_2, "Missing second operand for mov instruction") {
        FlowExec::Fault => FlowExec::Fault,
        FlowExec::Fail(w1, m) => FlowExec::Fail(w1, m),
        FlowExec::Done(w1, v) => match i.operand_1 {
            OperandType::Register { idx } => match reg_write_exec(w1, idx, v) {
                FlowExec::Done(w2, _) => FlowExec::Done(w2, 1),
                _ => FlowExec::Fault,
            },
            OperandType::StackValue { base_register, addition, offset } => match set_stack_exec(
                w1,
                base_register,
                addition,
                offset,
                v,
            ) {
                FlowExec::Fault => FlowExec::Fault,
                FlowExec::Fail(w2, m) => FlowExec::Fail(w2, m),
                FlowExec::Done(w2, _) => FlowExec::Done(w2, 1),
            },
            _ => invalid_exec(w1, "Missing first operand for mov instruction"),
        },
    }
}

fn store_exec(vm: &VirtualMachine, w: WorkExec, i: Instruction) -> (r: FlowExec<i32>)
    requires
        ok(w),
        well_sized(vm@),
        i.opcode == OpCodes::STORE,
    ensures
        flow_is(r, execute(vm@, w@, i)),
{
    match read_operand_exec(vm, w, i.operand_2, "Missing second operand for store instruction") {
        FlowExec::Fault => FlowExec::Fault,
        FlowExec::Fail(w1, m) => FlowExec::Fail(w1, m),
        FlowExec::Done(w1, v) => match read_operand_exec(
            vm,
            w1,
            i.operand_1,
            "Missing first operand for store instruction",
        ) {
            FlowExec::Fault => FlowExec::Fault,
            FlowExec::Fail(w2, m) => FlowExec::Fail(w2, m),
            FlowExec::Done(w2, a) => {
                if 0 <= a && a < 65536 {
                    let mut w3 = w2;
                    w3.memory_write = Some((a as usize, v));
                    FlowExec::Done(w3, 1)
                } else {
                    FlowExec::Fault
                }
            },
        },
    }
}

fn load_exec(vm: &VirtualMachine, w: WorkExec, i: Instruction) -> (r: FlowExec<i32>)
    requires
        ok(w),
        well_sized(vm@),
        i.opcode == OpCodes::LOAD,
    ensures
        flow_is(r, execute(vm@, w@, i)),
{
    match i.operand_1 {
        OperandType::Register { idx: op1 } => match read_operand_exec(
            vm,
            w,
            i.operand_2,
            "Missing second operand for store instruction",
        ) {
            FlowExec::Fault => FlowExec::Fault,
            FlowExec::Fail(w1, m) => FlowExec::Fail(w1, m),
            FlowExec::Done(w1, a) => {
                if 0 <= a && a < 65536 {
                    let v = vm.memory[a as usize];
                    match reg_write_exec(w1, op1, v) {
                        FlowExec::Done(w2, _) => FlowExec::Done(w2, 1),
                        _ => FlowExec::Fault,
                    }
                } else {
                    FlowExec::Fault
                }
            },
        },
        _ => invalid_exec(w, "Missing first operand for store instruction"),
    }
}

fn compare_exec(w: WorkExec, i: Instruction) -> (r: FlowExec<i32>)
    requires
        ok(w),
        i.opcode == OpCodes::CMP,
    ensures
        forall|s: VMState| flow_is(r, #[trigger] execute(s, w@, i)),
{
    match i.operand_1 {
        OperandType::Register { idx: op1 } => {
            if op1 >= 6 {
                return FlowExec::Fault;
            }
            let a = w.regs[op1];
            let b = match i.operand_2 {
                OperandType::Register { idx } => reg_read_exec(w, idx),
                OperandType::Literal { value } => FlowExec::Done(w, value),
                OperandType::StackValue { .. } => invalid_exec(
                    w,
                    "Cannot use stack operation as operand for comparison instruction",
                ),
                OperandType::NoOperand => invalid_exec(w, "Missing second operand for sub instruction"),
            };
            match b {
                FlowExec::Fault => FlowExec::Fault,
                FlowExec::Fail(w1, m) => FlowExec::Fail(w1, m),
                FlowExec::Done(w1, bv) => {
                    let d: i64 = a as i64 - bv as i64;
                    if d < -2147483648 || d > 2147483647 {
                        FlowExec::Fault
                    } else {
                        FlowExec::Done(with_flag_exec(w1, d as i32), 1)
                    }
                },
            }
        },
        _ => invalid_exec(w, "Missing first operand for sub instruction"),
    }
}

fn jump_exec(vm: &VirtualMachine, w: WorkExec, i: Instruction, taken: bool) -> (r: FlowExec<i32>)
    requires
        ok(w),
        well_sized(vm@),
    ensures
        flow_is(r, jump_step(vm@, w@, i, taken)),
{
    if taken {
        read_operand_exec(vm, w, i.operand_1, "Missing first operand for store instruction")
    } else {
        FlowExec::Done(w, 1)
    }
}

fn call_exec(vm: &VirtualMachine, w: WorkExec, i: Instruction) -> (r: FlowExec<i32>)
    requires
        ok(w),
        well_sized(vm@),
        i.opcode == OpCodes::CALL,
    ensures
        flow_is(r, execute(vm@, w@, i)),
{
    match read_operand_exec(vm, w, i.operand_1, "Missing first operand for store instruction") {
        FlowExec::Fault => FlowExec::Fault,
        FlowExec::Fail(w1, m) => FlowExec::Fail(w1, m),
        FlowExec::Done(w1, target) => {
            let cip = w1.regs[5];
            if cip == i32::MAX {
                return FlowExec::Fault;
            }
            match push_exec(w1, cip + 1) {
                FlowExec::Fault => FlowExec::Fault,
                FlowExec::Fail(w2, m) => FlowExec::Fail(w2, m),
                FlowExec::Done(w2, _) => FlowExec::Done(w2, target),
            }
        },
    }
}

fn ret_exec(vm: &VirtualMachine, w: WorkExec, i: Instruction) -> (r: FlowExec<i32>)
    requires
        ok(w),
        well_sized(vm@),
        i.opcode == OpCodes::RET,
    ensures
        flow_is(r, execute(vm@, w@, i)),
{
    match pop_exec(vm, w) {
        FlowExec::Fault => FlowExec::Fault,
        FlowExec::Fail(w1, m) => FlowExec::Fail(w1, m),
        FlowExec::Done(w1, rp) => {
            let d: i64 = rp as i64 - w1.regs[5] as i64;
            if d < -2147483648 || d > 2147483647 {
                FlowExec::Fault
            } else {
                FlowExec::Done(w1, d as i32)
            }
        },
    }
}

fn pop_op_exec(vm: &VirtualMachine, w: WorkExec, i: Instruction) -> (r: FlowExec<i32>)
    requires
        ok(w),
        well_sized(vm@),
        i.opcode == OpCodes::POP,
    ensures
        flow_is(r, execute(vm@, w@, i)),
{
    match i.operand_1 {
        OperandType::Register { idx } => match pop_exec(vm, w) {
            FlowExec::Fault => FlowExec::Fault,
            FlowExec::Fail(w1, m) => FlowExec::Fail(w1, m),
            FlowExec::Done(w1, v) => match reg_write_exec(w1, idx, v) {
                FlowExec::Done(w2, _) => FlowExec::Done(w2, 1),
                _ => FlowExec::Fault,
            },
        },
        OperandType::NoOperand => match pop_exec(vm, w) {
            FlowExec::Fault => FlowExec::Fault,
            FlowExec::Fail(w1, m) => FlowExec::Fail(w1, m),
            FlowExec::Done(w1, _) => FlowExec::Done(w1, 1),
        },
        _ => invalid_exec(w, "Can't pop the stack into the stack or into a literal"),
    }
}

fn push_op_exec(w: WorkExec, i: Instruction) -> (r: FlowExec<i32>)
    requires
        ok(w),
        i.opcode == OpCodes::PUSH,
    ensures
        forall|s: VMState| flow_is(r, #[trigger] execute(s, w@, i)),
{
    let v = match i.operand_1 {
        OperandType::Register { idx } => reg_read_exec(w, idx),
        OperandType::Literal { value } => FlowExec::Done(w, value),
        _ => invalid_exec(w, "Can't push a value from the stack onto the stack or no value"),
    };
    match v {
        FlowExec::Fault => FlowExec::Fault,
        FlowExec::Fail(w1, m) => FlowExec::Fail(w1, m),
        FlowExec::Done(w1, x) => match push_exec(w1, x) {
            FlowExec::Fault => FlowExec::Fault,
            FlowExec::Fail(w2, m) => FlowExec::Fail(w2, m),
            FlowExec::Done(w2, _) => FlowExec::Done(w2, 1),
        },
    }
}

fn print_exec(w: WorkExec, i: Instruction) -> (r: FlowExec<i32>)
    requires
        ok(w),
        i.opcode == OpCodes::PRINT,
    ensures
        forall|s: VMState| flow_is(r, #[trigger] execute(s, w@, i)),
{
    match i.operand_1 {
        OperandType::Register { idx } => {
            if idx < 6 {
                let mut text: Vec<char> = Vec::new();
                push_int_chars(&mut text, w.regs[idx] as i64);
                let mut w = w;
                w.output = Some(string_from_chars(&text));
                FlowExec::Done(w, 1)
            } else {
                FlowExec::Fault
            }
        },
        _ => invalid_exec(w, "Missing operand for print instruction"),
    }
}

/// The execution of one instruction, as [`execute`] gives it.
fn execute_exec(vm: &VirtualMachine, w: WorkExec, i: Instruction) -> (r: FlowExec<i32>)
    requires
        ok(w),
        well_sized(vm@),
    ensures
        flow_is(r, execute(vm@, w@, i)),
{
    match i.opcode {
        OpCodes::MOV => mov_exec(vm, w, i),
        OpCodes::STORE => store_exec(vm, w, i),
        OpCodes::LOAD => load_exec(vm, w, i),
        OpCodes::ADD | OpCodes::SUB | OpCodes::MUL | OpCodes::DIV | OpCodes::MOD => arithmetic_step_exec(
            w,
            i,
        ),
        OpCodes::CMP => compare_exec(w, i),
        OpCodes::JMP => jump_exec(vm, w, i, true),
        OpCodes::JZ => {
            let t = VirtualMachine::check(vm.flags, Flags::ZeroFlag);
            jump_exec(vm, w, i, t)
        },
        OpCodes::JNZ => {
            let t = !VirtualMachine::check(vm.flags, Flags::ZeroFlag);
            jump_exec(vm, w, i, t)
        },
        OpCodes::JN => {
            let t = VirtualMachine::check(vm.flags, Flags::NegativeFlag);
            jump_exec(vm, w, i, t)
        },
        OpCodes::JP => {
            let t = VirtualMachine::check(vm.flags, Flags::PositiveFlag);
            jump_exec(vm, w, i, t)
        },
        OpCodes::CALL => call_exec(vm, w, i),
        OpCodes::RET => ret_exec(vm, w, i),
        OpCodes::POP => pop_op_exec(vm, w, i),
        OpCodes::PUSH => push_op_exec(w, i),
        OpCodes::PRINT => print_exec(w, i),
        OpCodes::HLT => {
            let mut w = w;
            w.status = MachineStatus::Complete;
            FlowExec::Done(w, 1)
        },
    }
}

// ---------------------------------------------------------------------------
// The machine
// ---------------------------------------------------------------------------

impl VirtualMachine {
    /// Whether the machine has its six registers, 256 stack values and 65536
    /// memory cells, and no flag pending for the next step: flags computed by
    /// an instruction become the current ones when it ends.
    pub closed spec fn wf(&self) -> bool {
        &&& self.registers.len() == 6 && self.stack.len() == 256 && self.memory.len() == 65536
        &&& self.next_flags == 0
    }

    /// A new machine: all zero but the stack pointer, at the top of the stack.
    pub fn new() -> (r: VirtualMachine)
        ensures
            r.wf(),
            r@ == initial_state(),
    {
        let mut registers = zeros(6);
        registers.set(3, 256);
        let r = VirtualMachine {
            registers,
            stack: zeros(256),
            flags: 0,
            next_flags: 0,
            memory: zeros(65536),
            status: MachineStatus::Empty,
            program: None,
            current_output: None,
        };
        assert(r@.registers =~= seq![0, 0, 0, 256, 0, 0]);
        r
    }

    /// The machine with `program` loaded, ready to run.
    pub fn with_program(self, program: Vec<Instruction>) -> (r: VirtualMachine)
        requires
            self.wf(),
        ensures
            r.wf(),
            r@ == (VMState { program: Some(program@), status: MachineStatus::Ready, ..self@ }),
    {
        let mut s = self;
        s.program = Some(program);
        s.status = MachineStatus::Ready;
        s
    }

    /// The name of the machine's status.
    pub fn get_status(&self) -> (r: String)
        ensures
            r@ == status_name(self@.status),
    {
        match self.status {
            MachineStatus::Empty => to_owned_string("Empty"),
            MachineStatus::Ready => to_owned_string("Ready"),
            MachineStatus::Running => to_owned_string("Running"),
            MachineStatus::Dead => to_owned_string("Dead"),
            MachineStatus::Complete => to_owned_string("Complete"),
        }
    }

    /// Whether the program has run to its end.
    pub fn has_completed(&self) -> (r: bool)
        ensures
            r == (self@.status == MachineStatus::Complete),
    {
        match self.status {
            MachineStatus::Complete => true,
            _ => false,
        }
    }

    fn check(flags: u8, f: Flags) -> (r: bool)
        ensures
            r == flag_set(flags, f),
    {
        flags & f.bit() != 0
    }

    /// For each flag: its name, whether it is set now, whether it is set for
    /// the next step (`t` or `f`).
    pub fn get_flags(&self) -> (r: Vec<(String, String, String)>)
        ensures
            r@.len() == 3,
            forall|k: int| 0 <= k < 3 ==> flag_row(#[trigger] r@[k], flag_order(k), self@),
    {
        let all = Flags::all();
        let mut r: Vec<(String, String, String)> = Vec::new();
        let mut i: usize = 0;
        while i < 3
            invariant
                i <= 3,
                all@ == seq![Flags::ZeroFlag, Flags::NegativeFlag, Flags::PositiveFlag],
                r@.len() == i,
                forall|k: int| 0 <= k < i ==> flag_row(#[trigger] r@[k], flag_order(k), self@),
            decreases 3 - i,
        {
            let f = all[i];
            let now = if Self::check(self.flags, f) { to_owned_string("t") } else { to_owned_string("f") };
            let next = if Self::check(self.next_flags, f) { to_owned_string("t") } else { to_owned_string("f") };
            r.push((f.to_string(), now, next));
            i = i + 1;
        }
        r
    }

    /// Up to `amount` instructions of the program from `offset` on, with their indexes.
    pub fn get_instruction_slice(&self, offset: usize, amount: usize) -> (r: Vec<(usize, Instruction)>)
        ensures
            match self@.program {
                Some(p) => r@.len() == (if offset >= p.len() { 0 } else if amount < p.len() - offset { amount as int } else { p.len() - offset })
                    && forall|k: int| 0 <= k < r@.len() ==> r@[k] == ((offset + k) as usize, p[offset + k]),
                None => r@.len() == 0,
            },
    {
        let mut r: Vec<(usize, Instruction)> = Vec::new();
        match &self.program {
            Some(p) => {
                let mut k: usize = 0;
                while k < amount && offset < p.len() && k < p.len() - offset
                    invariant
                        r@.len() == k,
                        k <= amount,
                        offset < p.len() ==> k <= p.len() - offset,
                        offset >= p.len() ==> k == 0,
                        self@.program == Some(p@),
                        forall|j: int| 0 <= j < k ==> r@[j] == ((offset + j) as usize, p@[offset + j]),
                    decreases amount - k,
                {
                    r.push((offset + k, p[offset + k]));
                    k = k + 1;
                }
            },
            None => {},
        }
        r
    }

    /// Up to `amount` stack values from the top of the stack down, skipping the
    /// `offset` highest, with their indexes.
    pub fn get_stack_slice(&self, offset: usize, amount: usize) -> (r: Vec<(usize, i32)>)
        requires
            self.wf(),
        ensures
            r@.len() == (if offset >= 256 { 0 } else if amount < 256 - offset { amount as int } else { 256 - offset }),
            forall|k: int| 0 <= k < r@.len() ==> r@[k] == ((255 - k - offset) as usize, self@.stack[255 - k - offset]),
    {
        let mut r: Vec<(usize, i32)> = Vec::new();
        let mut k: usize = 0;
        while k < amount && offset < 256 && k < 256 - offset
            invariant
                self.wf(),
                r@.len() == k,
                k <= amount,
                offset < 256 ==> k <= 256 - offset,
                offset >= 256 ==> k == 0,
                forall|j: int| 0 <= j < k ==> r@[j] == ((255 - j - offset) as usize, self.stack@[255 - j - offset]),
            decreases amount - k,
        {
            let idx = 255 - k - offset;
            r.push((idx, self.stack[idx]));
            k = k + 1;
        }
        r
    }

    /// The value of a register, or 0 for an index past the last one.
    pub fn get_register(&self, register: usize) -> (r: i32)
        requires
            self.wf(),
        ensures
            r == (if register < 6 { self@.registers[register as int] } else { 0 }),
    {
        if register >= self.registers.len() {
            return 0;
        }
        self.registers[register]
    }

    /// The registers with their names, in order.
    pub fn get_registers(&self) -> (r: Vec<(String, i32)>)
        requires
            self.wf(),
        ensures
            r@.len() == 6,
            forall|k: int| 0 <= k < 6 ==> r@[k].1 == self@.registers[k],
            r@[0].0@ == "GPA"@ && r@[1].0@ == "GPB"@ && r@[2].0@ == "SBP"@ && r@[3].0@ == "TSP"@
                && r@[4].0@ == "FRV"@ && r@[5].0@ == "CIP"@,
    {
        let mut r: Vec<(String, i32)> = Vec::new();
        r.push((to_owned_string("GPA"), self.registers[0]));
        r.push((to_owned_string("GPB"), self.registers[1]));
        r.push((to_owned_string("SBP"), self.registers[2]));
        r.push((to_owned_string("TSP"), self.registers[3]));
        r.push((to_owned_string("FRV"), self.registers[4]));
        r.push((to_owned_string("CIP"), self.registers[5]));
        r
    }

    /// The instruction at `CIP`, if there is one.
    pub fn get_current_instruction(&self) -> (r: Option<Instruction>)
        requires
            self.wf(),
        ensures
            r == (match self@.program {
                Some(p) => if 0 <= self@.registers[5] < p.len() {
                    Some(p[self@.registers[5] as int])
                } else {
                    None
                },
                None => None,
            }),
    {
        match &self.program {
            Some(p) => {
                let cip = self.registers[5];
                if cip >= 0 && (cip as usize) < p.len() {
                    Some(p[cip as usize])
                } else {
                    None
                }
            },
            None => None,
        }
    }

    /// The current stack frame: the values from the stack pointer up to the
    /// base pointer, one per line.
    pub fn get_stack_frame(&self) -> (r: String)
        requires
            self.wf(),
            self@.registers[3] < self@.registers[2] ==> 0 <= self@.registers[3] && self@.registers[2] <= 256,
        ensures
            r@ == frame_text(self@.stack, self@.registers[3] as int, self@.registers[2] as int),
    {
        let from = self.registers[3];
        let to = self.registers[2];
        let mut out: Vec<char> = Vec::new();
        if from < to {
            let mut i: i32 = from;
            while i < to
                invariant
                    from <= i <= to,
                    0 <= from,
                    to <= 256,
                    self.wf(),
                    out@ + frame_text(self.stack@, i as int, to as int) == frame_text(self.stack@, from as int, to as int),
                decreases to - i,
            {
                let mut line = str_chars("[");
                push_int_chars(&mut line, i as i64);
                extend_chars(&mut line, &str_chars("] = "));
                push_int_chars(&mut line, self.stack[i as usize] as i64);
                line.push('\n');
                proof {
                    reveal_strlit("\n");
                }
                let ghost before = out@;
                extend_chars(&mut out, &line);
                assert(out@ + frame_text(self.stack@, i + 1, to as int) =~= before + frame_text(self.stack@, i as int, to as int));
                i = i + 1;
            }
        }
        string_from_chars(&out)
    }

    /// The instruction pointer.
    pub fn get_cip(&self) -> (r: i32)
        requires
            self.wf(),
        ensures
            r == self@.registers[5],
    {
        self.registers[5]
    }

    /// The registers, one per line, as [`registers_text`] gives them.
    pub fn get_registers_display(&self) -> (r: String)
        requires
            self.wf(),
        ensures
            r@ == registers_text(self@.registers),
    {
        let mut out = str_chars("GPA: ");
        push_padded(&mut out, self.registers[0]);
        extend_chars(&mut out, &str_chars("\nGPB: "));
        push_padded(&mut out, self.registers[1]);
        extend_chars(&mut out, &str_chars("\nSBP: "));
        push_padded(&mut out, self.registers[2]);
        extend_chars(&mut out, &str_chars("\nTSP: "));
        push_padded(&mut out, self.registers[3]);
        extend_chars(&mut out, &str_chars("\nFRV: "));
        push_padded(&mut out, self.registers[4]);
        extend_chars(&mut out, &str_chars("\nCIP: "));
        push_padded(&mut out, self.registers[5]);
        string_from_chars(&out)
    }

    /// What the last step printed, if it printed.
    pub fn get_current_output(&self) -> (r: Option<String>)
        ensures
            match (r, self@.output) {
                (Some(a), Some(b)) => a@ == b,
                (None, None) => true,
                _ => false,
            },
    {
        copy_string(&self.current_output)
    }

    /// What a step of the machine comes to, computed without changing it.
    fn outcome(&self) -> (o: Outcome)
        requires
            self.wf(),
        ensures
            outcome_is(o, self@),
            o matches Outcome::Commit(w, _, _) ==> w.next_flags == 0,
    {
        match self.status {
            MachineStatus::Dead | MachineStatus::Complete => {
                return Outcome::Refused(to_owned_string("Machine is dead"));
            },
            _ => {},
        }
        let ready = match self.status {
            MachineStatus::Ready => true,
            _ => false,
        };
        let mut regs = copy_values(&self.registers);
        if ready {
            regs.set(5, 0);
        }
        let w0 = WorkExec {
            regs,
            stack_write: None,
            memory_write: None,
            next_flags: self.next_flags,
            status: if ready {
                MachineStatus::Running
            } else {
                self.status
            },
            output: copy_string(&self.current_output),
        };
        let cip = w0.regs[5];
        let (fetched, len) = match &self.program {
            Some(p) => {
                if cip >= 0 && (cip as usize) < p.len() {
                    (Some(p[cip as usize]), p.len())
                } else {
                    (None, p.len())
                }
            },
            None => (None, 0),
        };
        match fetched {
            None => {
                let mut msg = str_chars("Unable to fetch instruction at index ");
                push_nat_digits(&mut msg, (cip as usize) as u64);
                Outcome::Commit(w0, Err(string_from_chars(&msg)), None)
            },
            Some(i) => {
                let mut w1 = w0;
                w1.output = None;
                proof {
                    lemma_execute_keeps_shape(self@, w1@, i);
                }
                match execute_exec(self, w1, i) {
                    FlowExec::Fault => Outcome::Fault,
                    FlowExec::Fail(w2, m) => Outcome::Commit(w2, Err(m), None),
                    FlowExec::Done(w2, jump) => {
                        let next: i64 = w2.regs[5] as i64 + jump as i64;
                        if next < -2147483648 || next > 2147483647 {
                            return Outcome::Fault;
                        }
                        let flags = w2.next_flags;
                        let mut w3 = w2;
                        w3.regs.set(5, next as i32);
                        w3.next_flags = 0;
                        if ((next as i32) as usize) >= len {
                            w3.status = MachineStatus::Complete;
                        }
                        Outcome::Commit(w3, Ok(()), Some(flags))
                    },
                }
            },
        }
    }

    /// Whether the next step would fault: index past a register, the stack or
    /// the memory, divide by zero, or overflow.
    pub fn would_fault(&self) -> (r: bool)
        requires
            self.wf(),
        ensures
            r == (step(self@) is None),
    {
        match self.outcome() {
            Outcome::Fault => true,
            _ => false,
        }
    }

    /// Executes one instruction, as [`step`] gives it: a finished machine
    /// refuses, a failing instruction kills the machine and says why.
    pub fn tick(&mut self) -> (r: Result<(), String>)
        requires
            old(self).wf(),
            step(old(self)@) is Some,
        ensures
            final(self).wf(),
            step(old(self)@) == Some((final(self)@, result_view(r))),
    {
        match self.outcome() {
            Outcome::Fault => Err(to_owned_string("Machine is dead")),
            Outcome::Refused(m) => Err(m),
            Outcome::Commit(w, res, flags) => {
                self.apply(w, flags);
                res
            },
        }
    }

    /// Writes the work of a step into the machine.
    fn apply(&mut self, w: WorkExec, flags: Option<u8>)
        requires
            old(self).wf(),
            ok(w),
            w.next_flags == 0,
        ensures
            final(self).wf(),
            final(self)@ == (VMState {
                flags: match flags {
                    Some(f) => f,
                    None => old(self)@.flags,
                },
                ..commit(old(self)@, w@)
            }),
    {
        let WorkExec { regs, stack_write, memory_write, next_flags, status, output } = w;
        self.registers = regs;
        match stack_write {
            Some((i, v)) => self.stack.set(i, v),
            None => {},
        }
        match memory_write {
            Some((i, v)) => self.memory.set(i, v),
            None => {},
        }
        self.next_flags = next_flags;
        self.status = status;
        self.current_output = output;
        match flags {
            Some(f) => self.flags = f,
            None => {},
        }
    }
}

/// What a step comes to: a fault, a refusal of a finished machine, or the
/// work to write into the machine with its result and, when the instruction
/// ran to its end, the flags of the next step.
enum Outcome {
    Fault,
    Refused(String),
    Commit(WorkExec, Result<(), String>, Option<u8>),
}

/// The result of a step, with its message as text.
pub open spec fn result_view(r: Result<(), String>) -> Result<(), Seq<char>> {
    match r {
        Ok(()) => Ok(()),
        Err(e) => Err(e@),
    }
}

spec fn outcome_is(o: Outcome, s: VMState) -> bool {
    match o {
        Outcome::Fault => step(s) is None,
        Outcome::Refused(m) => step(s) == Some((s, Err::<(), Seq<char>>(m@))),
        Outcome::Commit(w, res, flags) => ok(w) && step(s) == Some(
            (
                VMState {
                    flags: match flags {
                        Some(f) => f,
                        None => s.flags,
                    },
                    ..commit(s, w@)
                },
                result_view(res),
            ),
        ),
    }
}

fn copy_values(v: &Vec<i32>) -> (r: Vec<i32>)
    ensures
        r@ == v@,
{
    let mut r: Vec<i32> = Vec::new();
    let mut i: usize = 0;
    while i < v.len()
        invariant
            i <= v.len(),
            r@ == v@.take(i as int),
        decreases v.len() - i,
    {
        r.push(v[i]);
        i = i + 1;
        assert(r@ =~= v@.take(i as int));
    }
    assert(r@ =~= v@);
    r
}

fn push_padded(out: &mut Vec<char>, v: i32)
    ensures
        final(out)@ == old(out)@ + padded(v),
{
    let mut t: Vec<char> = Vec::new();
    push_int_chars(&mut t, v as i64);
    let mut k: usize = t.len();
    let ghost start = out@;
    while k < 5
        invariant
            t.len() <= k <= 5 || (k == t.len() && t.len() > 5),
            out@ == start + Seq::new((k - t.len()) as nat, |i: int| ' '),
        decreases 5 - k,
    {
        out.push(' ');
        k = k + 1;
        assert(out@ =~= start + Seq::new((k - t.len()) as nat, |i: int| ' '));
    }
    extend_chars(out, &t);
}

} // verus!
