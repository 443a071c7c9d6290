//! One step of the machine, as a function from its state to the state after
//! the step and what the step returns.
//!
//! A step that would index past a register, the stack or the memory, divide
//! by zero, or overflow an `i32` has no outcome: it is a fault, which callers
//! test for (see `VirtualMachine::would_fault`) before they step.
use vstd::prelude::*;

use super::enums::{Flags, MachineStatus, OpCodes, OperandType};
use super::instruction::Instruction;
use crate::text::{int_chars, nat_digits};

verus! {

/// The number of registers, of stack slots and of memory cells.
pub const REGISTER_COUNT: usize = 6;
pub const STACK_SIZE: usize = 256;
pub const MEMORY_SIZE: usize = 65536;

/// The state of the machine.
pub struct VMState {
    pub registers: Seq<i32>,
    pub stack: Seq<i32>,
    pub flags: u8,
    pub next_flags: u8,
    pub memory: Seq<i32>,
    pub status: MachineStatus,
    pub program: Option<Seq<Instruction>>,
    pub output: Option<Seq<char>>,
}

/// What a step has done so far: the registers, the stack slot and memory cell
/// written, the flags of the next step, the status and the output.
pub struct Work {
    pub regs: Seq<i32>,
    pub stack_write: Option<(usize, i32)>,
    pub memory_write: Option<(usize, i32)>,
    pub next_flags: u8,
    pub status: MachineStatus,
    pub output: Option<Seq<char>>,
}

/// A part of a step: a fault, a failure with its message, or a value.
pub enum Flow<T> {
    Fault,
    Fail(Work, Seq<char>),
    Done(Work, T),
}

pub open spec fn reg_read(w: Work, i: usize) -> Flow<i32> {
    if i < 6 {
        Flow::Done(w, w.regs[i as int])
    } else {
        Flow::Fault
    }
}

pub open spec fn reg_write(w: Work, i: usize, v: i32) -> Flow<()> {
    if i < 6 {
        Flow::Done(Work { regs: w.regs.update(i as int, v), ..w }, ())
    } else {
        Flow::Fault
    }
}

/// The machine dies on a wrong instruction.
pub open spec fn invalid<T>(w: Work, msg: Seq<char>) -> Flow<T> {
    Flow::Fail(
        Work { status: MachineStatus::Dead, ..w },
        "FATAL: "@ + msg + " (CIP: "@ + int_chars(w.regs[5] as int) + ")"@,
    )
}

pub open spec fn dies<T>(w: Work, msg: Seq<char>) -> Flow<T> {
    Flow::Fail(Work { status: MachineStatus::Dead, ..w }, msg)
}

/// The index of a stack value: a register's value plus or minus an offset.
pub open spec fn stack_index(w: Work, base: usize, addition: bool, offset: usize) -> Flow<usize> {
    if base >= 6 {
        Flow::Fault
    } else {
        let o = offset as i32;
        let r = if addition {
            w.regs[base as int] + o
        } else {
            w.regs[base as int] - o
        };
        if r < i32::MIN || r > i32::MAX {
            Flow::Fault
        } else if r < 0 {
            dies(w, "Stack underflow"@)
        } else {
            Flow::Done(w, r as usize)
        }
    }
}

pub open spec fn get_stack(s: VMState, w: Work, base: usize, addition: bool, offset: usize) -> Flow<i32> {
    match stack_index(w, base, addition, offset) {
        Flow::Fault => Flow::Fault,
        Flow::Fail(w1, m) => Flow::Fail(w1, m),
        Flow::Done(w1, i) => if i < 256 {
            Flow::Done(w1, s.stack[i as int])
        } else {
            dies(w1, "Unable to get stack value at index: "@ + nat_digits(i as nat))
        },
    }
}

pub open spec fn set_stack(w: Work, base: usize, addition: bool, offset: usize, v: i32) -> Flow<()> {
    match stack_index(w, base, addition, offset) {
        Flow::Fault => Flow::Fault,
        Flow::Fail(w1, m) => Flow::Fail(w1, m),
        Flow::Done(w1, i) => if i < 256 {
            Flow::Done(Work { stack_write: Some((i, v)), ..w1 }, ())
        } else {
            dies(w1, "Unable to set stack value at index: "@ + nat_digits(i as nat))
        },
    }
}

/// Pushes a value: the stack pointer goes down by one.
pub open spec fn push(w: Work, v: i32) -> Flow<()> {
    let tsp = w.regs[3];
    if tsp - 1 < i32::MIN {
        Flow::Fault
    } else if tsp - 1 < 0 {
        Flow::Fail(w, "Stack overflow"@)
    } else if tsp - 1 >= 256 {
        Flow::Fault
    } else {
        Flow::Done(
            Work { regs: w.regs.update(3, (tsp - 1) as i32), stack_write: Some(((tsp - 1) as usize, v)), ..w },
            (),
        )
    }
}

/// Pops a value: the stack pointer goes up by one.
pub open spec fn pop(s: VMState, w: Work) -> Flow<i32> {
    let tsp = w.regs[3];
    if tsp + 1 > i32::MAX {
        Flow::Fault
    } else if tsp + 1 < 0 || tsp + 1 > 256 {
        Flow::Fail(w, "Stack underflow"@)
    } else if tsp < 0 {
        Flow::Fault
    } else {
        Flow::Done(Work { regs: w.regs.update(3, (tsp + 1) as i32), ..w }, s.stack[tsp as int])
    }
}

/// The memory cell at an address, when there is one.
pub open spec fn memory_at(s: VMState, addr: i32) -> Option<i32> {
    if 0 <= addr < 65536 {
        Some(s.memory[addr as int])
    } else {
        None
    }
}

/// The flag a result sets: zero, negative or positive.
pub open spec fn flag_of(v: int) -> u8 {
    if v == 0 {
        1
    } else if v < 0 {
        2
    } else {
        4
    }
}

pub open spec fn with_flag(w: Work, v: int) -> Work {
    Work { next_flags: w.next_flags | flag_of(v), ..w }
}

/// The value of an operand: a register, a literal or a stack value; no operand
/// is a wrong instruction.
pub open spec fn read_operand(s: VMState, w: Work, o: OperandType, msg: Seq<char>) -> Flow<i32> {
    match o {
        OperandType::Register { idx } => reg_read(w, idx),
        OperandType::Literal { value } => Flow::Done(w, value),
        OperandType::StackValue { base_register, addition, offset } => get_stack(
            s,
            w,
            base_register,
            addition,
            offset,
        ),
        OperandType::NoOperand => invalid(w, msg),
    }
}

/// The result of an arithmetic operation, when it is defined and fits.
pub open spec fn arithmetic(op: OpCodes, a: i32, b: i32) -> Option<i32> {
    let r: int = match op {
        OpCodes::ADD => a + b,
        OpCodes::SUB => a - b,
        OpCodes::MUL => a * b,
        _ => 0,
    };
    match op {
        OpCodes::DIV => if b == 0 || (a == i32::MIN && b == -1) {
            None
        } else {
            Some(div_toward_zero(a, b))
        },
        OpCodes::MOD => if b == 0 || (a == i32::MIN && b == -1) {
            None
        } else {
            Some(rem_toward_zero(a, b))
        },
        _ => if i32::MIN <= r <= i32::MAX {
            Some(r as i32)
        } else {
            None
        },
    }
}

/// Division rounding toward zero, as `i32` division does.
pub open spec fn div_toward_zero(a: i32, b: i32) -> i32 {
    let q = (if a >= 0 { a as int } else { -a }) / (if b >= 0 { b as int } else { -b });
    (if (a >= 0) == (b >= 0) {
        q
    } else {
        -q
    }) as i32
}

/// The remainder of division rounding toward zero: it has the sign of `a`.
pub open spec fn rem_toward_zero(a: i32, b: i32) -> i32 {
    (a - div_toward_zero(a, b) * b) as i32
}

pub open spec fn arithmetic_name(op: OpCodes) -> Seq<char> {
    match op {
        OpCodes::ADD => "add"@,
        OpCodes::SUB => "sub"@,
        OpCodes::MUL => "mul"@,
        OpCodes::DIV => "div"@,
        _ => "mod"@,
    }
}

/// An arithmetic instruction: the first operand, a register, gets the result.
pub open spec fn arithmetic_step(w: Work, i: Instruction) -> Flow<i32> {
    match i.operand_1 {
        OperandType::Register { idx: op1 } => {
            if op1 >= 6 {
                Flow::Fault
            } else {
                let a = w.regs[op1 as int];
                let b = match i.operand_2 {
                    OperandType::Register { idx } => if idx < 6 {
                        Flow::Done(w, w.regs[idx as int])
                    } else {
                        Flow::Fault
                    },
                    OperandType::Literal { value } => Flow::Done(w, value),
                    OperandType::StackValue { .. } => invalid(
                        w,
                        "Cannot use stack operation as operand for arithmetic instruction"@,
                    ),
                    OperandType::NoOperand => invalid(
                        w,
                        "Missing second operand for "@ + arithmetic_name(i.opcode) + " instruction"@,
                    ),
                };
                match b {
                    Flow::Fault => Flow::Fault,
                    Flow::Fail(w1, m) => Flow::Fail(w1, m),
                    Flow::Done(w1, bv) => match arithmetic(i.opcode, a, bv) {
                        None => Flow::Fault,
                        Some(r) => Flow::Done(
                            with_flag(Work { regs: w1.regs.update(op1 as int, r), ..w1 }, r as int),
                            1,
                        ),
                    },
                }
            }
        },
        _ => invalid(w, "Missing first operand for "@ + arithmetic_name(i.opcode) + " instruction"@),
    }
}

/// A jump: when `taken`, the first operand is the offset of the next instruction.
pub open spec fn jump_step(s: VMState, w: Work, i: Instruction, taken: bool) -> Flow<i32> {
    if taken {
        read_operand(s, w, i.operand_1, "Missing first operand for store instruction"@)
    } else {
        Flow::Done(w, 1)
    }
}

pub open spec fn flag_set(flags: u8, f: Flags) -> bool {
    flags & f.spec_bit() != 0
}

/// The execution of one instruction: the work done and the offset of the next
/// instruction.
pub open spec fn execute(s: VMState, w: Work, i: Instruction) -> Flow<i32> {
    match i.opcode {
        OpCodes::MOV => match read_operand(s, w, i.operand_2, "Missing second operand for mov instruction"@) {
            Flow::Fault => Flow::Fault,
            Flow::Fail(w1, m) => Flow::Fail(w1, m),
            Flow::Done(w1, v) => match i.operand_1 {
                OperandType::Register { idx } => match reg_write(w1, idx, v) {
                    Flow::Done(w2, _) => Flow::Done(w2, 1),
                    _ => Flow::Fault,
                },
                OperandType::StackValue { base_register, addition, offset } => match set_stack(
                    w1,
                    base_register,
                    addition,
                    offset,
                    v,
                ) {
                    Flow::Fault => Flow::Fault,
                    Flow::Fail(w2, m) => Flow::Fail(w2, m),
                    Flow::Done(w2, _) => Flow::Done(w2, 1),
                },
                _ => invalid(w1, "Missing first operand for mov instruction"@),
            },
        },
        OpCodes::STORE => match read_operand(s, w, i.operand_2, "Missing second operand for store instruction"@) {
            Flow::Fault => Flow::Fault,
            Flow::Fail(w1, m) => Flow::Fail(w1, m),
            Flow::Done(w1, v) => {
                match read_operand(s, w1, i.operand_1, "Missing first operand for store instruction"@) {
                    Flow::Fault => Flow::Fault,
                    Flow::Fail(w2, m) => Flow::Fail(w2, m),
                    Flow::Done(w2, a) => if 0 <= a < 65536 {
                        Flow::Done(Work { memory_write: Some((a as usize, v)), ..w2 }, 1)
                    } else {
                        Flow::Fault
                    },
                }
            },
        },
        OpCodes::LOAD => match i.operand_1 {
            OperandType::Register { idx: op1 } => {
                match read_operand(s, w, i.operand_2, "Missing second operand for store instruction"@) {
                    Flow::Fault => Flow::Fault,
                    Flow::Fail(w1, m) => Flow::Fail(w1, m),
                    Flow::Done(w1, a) => match memory_at(s, a) {
                        None => Flow::Fault,
                        Some(v) => match reg_write(w1, op1, v) {
                            Flow::Done(w2, _) => Flow::Done(w2, 1),
                            _ => Flow::Fault,
                        },
                    },
                }
            },
            _ => invalid(w, "Missing first operand for store instruction"@),
        },
        OpCodes::ADD | OpCodes::SUB | OpCodes::MUL | OpCodes::DIV | OpCodes::MOD => arithmetic_step(
            w,
            i,
        ),
        OpCodes::CMP => match i.operand_1 {
            OperandType::Register { idx: op1 } => if op1 >= 6 {
                Flow::Fault
            } else {
                let a = w.regs[op1 as int];
                let b = match i.operand_2 {
                    OperandType::Register { idx } => reg_read(w, idx),
                    OperandType::Literal { value } => Flow::Done(w, value),
                    OperandType::StackValue { .. } => invalid(
                        w,
                        "Cannot use stack operation as operand for comparison instruction"@,
                    ),
                    OperandType::NoOperand => invalid(w, "Missing second operand for sub instruction"@),
                };
                match b {
                    Flow::Fault => Flow::Fault,
                    Flow::Fail(w1, m) => Flow::Fail(w1, m),
                    Flow::Done(w1, bv) => if i32::MIN <= a - bv <= i32::MAX {
                        Flow::Done(with_flag(w1, a - bv), 1)
                    } else {
                        Flow::Fault
                    },
                }
            },
            _ => invalid(w, "Missing first operand for sub instruction"@),
        },
        OpCodes::JMP => jump_step(s, w, i, true),
        OpCodes::JZ => jump_step(s, w, i, flag_set(s.flags, Flags::ZeroFlag)),
        OpCodes::JNZ => jump_step(s, w, i, !flag_set(s.flags, Flags::ZeroFlag)),
        OpCodes::JN => jump_step(s, w, i, flag_set(s.flags, Flags::NegativeFlag)),
        OpCodes::JP => jump_step(s, w, i, flag_set(s.flags, Flags::PositiveFlag)),
        OpCodes::CALL => match read_operand(s, w, i.operand_1, "Missing first operand for store instruction"@) {
            Flow::Fault => Flow::Fault,
            Flow::Fail(w1, m) => Flow::Fail(w1, m),
            Flow::Done(w1, target) => {
                let cip = w1.regs[5];
                if cip + 1 > i32::MAX {
                    Flow::Fault
                } else {
                    match push(w1, (cip + 1) as i32) {
                        Flow::Fault => Flow::Fault,
                        Flow::Fail(w2, m) => Flow::Fail(w2, m),
                        Flow::Done(w2, _) => Flow::Done(w2, target),
                    }
                }
            },
        },
        OpCodes::RET => match pop(s, w) {
            Flow::Fault => Flow::Fault,
            Flow::Fail(w1, m) => Flow::Fail(w1, m),
            Flow::Done(w1, rp) => {
                let d = rp - w1.regs[5];
                if i32::MIN <= d <= i32::MAX {
                    Flow::Done(w1, d as i32)
                } else {
                    Flow::Fault
                }
            },
        },
        OpCodes::POP => match i.operand_1 {
            OperandType::Register { idx } => match pop(s, w) {
                Flow::Fault => Flow::Fault,
                Flow::Fail(w1, m) => Flow::Fail(w1, m),
                Flow::Done(w1, v) => match reg_write(w1, idx, v) {
                    Flow::Done(w2, _) => Flow::Done(w2, 1),
                    _ => Flow::Fault,
                },
            },
            OperandType::NoOperand => match pop(s, w) {
                Flow::Fault => Flow::Fault,
                Flow::Fail(w1, m) => Flow::Fail(w1, m),
                Flow::Done(w1, _) => Flow::Done(w1, 1),
            },
            _ => invalid(w, "Can't pop the stack into the stack or into a literal"@),
        },
        OpCodes::PUSH => {
            let v = match i.operand_1 {
                OperandType::Register { idx } => reg_read(w, idx),
                OperandType::Literal { value } => Flow::Done(w, value),
                _ => invalid(w, "Can't push a value from the stack onto the stack or no value"@),
            };
            match v {
                Flow::Fault => Flow::Fault,
                Flow::Fail(w1, m) => Flow::Fail(w1, m),
                Flow::Done(w1, x) => match push(w1, x) {
                    Flow::Fault => Flow::Fault,
                    Flow::Fail(w2, m) => Flow::Fail(w2, m),
                    Flow::Done(w2, _) => Flow::Done(w2, 1),
                },
            }
        },
        OpCodes::PRINT => match i.operand_1 {
            OperandType::Register { idx } => if idx < 6 {
                Flow::Done(Work { output: Some(int_chars(w.regs[idx as int] as int)), ..w }, 1)
            } else {
                Flow::Fault
            },
            _ => invalid(w, "Missing operand for print instruction"@),
        },
        OpCodes::HLT => Flow::Done(Work { status: MachineStatus::Complete, ..w }, 1),
    }
}

/// The state after the work of a step.
pub open spec fn commit(s: VMState, w: Work) -> VMState {
    VMState {
        registers: w.regs,
        stack: match w.stack_write {
            Some((i, v)) => s.stack.update(i as int, v),
            None => s.stack,
        },
        memory: match w.memory_write {
            Some((i, v)) => s.memory.update(i as int, v),
            None => s.memory,
        },
        next_flags: w.next_flags,
        status: w.status,
        output: w.output,
        ..s
    }
}

/// The number of instructions of the loaded program (none when there is none).
pub open spec fn program_len(s: VMState) -> int {
    match s.program {
        Some(p) => p.len() as int,
        None => 0,
    }
}

/// One step: a finished machine refuses it; a ready one starts at the first
/// instruction; the instruction at `CIP` is executed, the flags it computed
/// become the current ones, `CIP` moves by the offset it gave, and the machine
/// completes when `CIP` leaves the program. `None` stands for a fault.
pub open spec fn step(s: VMState) -> Option<(VMState, Result<(), Seq<char>>)> {
    if s.status == MachineStatus::Dead || s.status == MachineStatus::Complete {
        Some((s, Err("Machine is dead"@)))
    } else {
        let w0 = Work {
            regs: if s.status == MachineStatus::Ready {
                s.registers.update(5, 0)
            } else {
                s.registers
            },
            stack_write: None,
            memory_write: None,
            next_flags: s.next_flags,
            status: if s.status == MachineStatus::Ready {
                MachineStatus::Running
            } else {
                s.status
            },
            output: s.output,
        };
        let cip = w0.regs[5];
        if !(s.program is Some && 0 <= cip < program_len(s)) {
            Some(
                (
                    commit(s, w0),
                    Err("Unable to fetch instruction at index "@ + nat_digits((cip as usize) as nat)),
                ),
            )
        } else {
            let i = s.program->0[cip as int];
            let w1 = Work { output: None, ..w0 };
            match execute(s, w1, i) {
                Flow::Fault => None,
                Flow::Fail(w2, m) => Some((commit(s, w2), Err(m))),
                Flow::Done(w2, jump) => {
                    let next = w2.regs[5] + jump;
                    if next < i32::MIN || next > i32::MAX {
                        None
                    } else {
                        let w3 = Work {
                            regs: w2.regs.update(5, next as i32),
                            next_flags: 0,
                            status: if (next as i32) as usize >= program_len(s) {
                                MachineStatus::Complete
                            } else {
                                w2.status
                            },
                            ..w2
                        };
                        Some((VMState { flags: w2.next_flags, ..commit(s, w3) }, Ok(())))
                    }
                },
            }
        }
    }
}


/// Whether a state has six registers, 256 stack values and 65536 memory cells.
pub open spec fn well_sized(s: VMState) -> bool {
    s.registers.len() == 6 && s.stack.len() == 256 && s.memory.len() == 65536
}

/// Whether the writes of a step fall inside the stack and the memory.
pub open spec fn writes_fit(w: Work) -> bool {
    &&& (w.stack_write matches Some((i, _)) ==> i < 256)
    &&& (w.memory_write matches Some((i, _)) ==> i < 65536)
}

/// What an instruction leaves: six registers and writes that fit; when it
/// fails, the flags of the next step are still `nf`.
pub open spec fn flow_keeps_shape<T>(f: Flow<T>, nf: u8) -> bool {
    match f {
        Flow::Fault => true,
        Flow::Fail(w, _) => w.regs.len() == 6 && writes_fit(w) && w.next_flags == nf,
        Flow::Done(w, _) => w.regs.len() == 6 && writes_fit(w),
    }
}

/// What a part of an instruction leaves: six registers, writes that fit, and
/// the flags of the next step still `nf`.
pub open spec fn part_ok<T>(f: Flow<T>, nf: u8) -> bool {
    match f {
        Flow::Fault => true,
        Flow::Fail(w, _) => w.regs.len() == 6 && writes_fit(w) && w.next_flags == nf,
        Flow::Done(w, _) => w.regs.len() == 6 && writes_fit(w) && w.next_flags == nf,
    }
}

/// An instruction keeps six registers and writes inside the stack and the
/// memory; a failing one leaves the flags of the next step as they were.
pub proof fn lemma_execute_keeps_shape(s: VMState, w: Work, i: Instruction)
    requires
        w.regs.len() == 6,
        writes_fit(w),
    ensures
        flow_keeps_shape(execute(s, w, i), w.next_flags),
{
    lemma_parts_keep_shape(s, w);
    match i.opcode {
        OpCodes::MOV => {
            let m = "Missing second operand for mov instruction"@;
            lemma_read_keeps_shape(s, w, i.operand_2, m);
            if let Flow::Done(w1, v) = read_operand(s, w, i.operand_2, m) {
                lemma_parts_keep_shape(s, w1);
                match i.operand_1 {
                    OperandType::StackValue { base_register, addition, offset } => {
                        lemma_stack_keeps_shape(s, w1, base_register, addition, offset, v);
                    },
                    _ => {},
                }
            }
        },
        OpCodes::STORE => {
            let m2 = "Missing second operand for store instruction"@;
            lemma_read_keeps_shape(s, w, i.operand_2, m2);
            if let Flow::Done(w1, v) = read_operand(s, w, i.operand_2, m2) {
                lemma_read_keeps_shape(s, w1, i.operand_1, "Missing first operand for store instruction"@);
            }
        },
        OpCodes::LOAD => {
            lemma_read_keeps_shape(s, w, i.operand_2, "Missing second operand for store instruction"@);
        },
        OpCodes::CALL => {
            let m = "Missing first operand for store instruction"@;
            lemma_read_keeps_shape(s, w, i.operand_1, m);
            if let Flow::Done(w1, _) = read_operand(s, w, i.operand_1, m) {
                lemma_parts_keep_shape(s, w1);
            }
        },
        OpCodes::JMP | OpCodes::JZ | OpCodes::JNZ | OpCodes::JN | OpCodes::JP => {
            lemma_read_keeps_shape(s, w, i.operand_1, "Missing first operand for store instruction"@);
        },
        OpCodes::PUSH => {
            match i.operand_1 {
                OperandType::Register { idx } => {
                    if let Flow::Done(w1, x) = reg_read(w, idx) {
                        lemma_parts_keep_shape(s, w1);
                    }
                },
                _ => {},
            }
        },
        _ => {},
    }
}

/// The parts of a step that need no operand keep the shape of the work.
proof fn lemma_parts_keep_shape(s: VMState, w: Work)
    requires
        w.regs.len() == 6,
        writes_fit(w),
    ensures
        forall|m: Seq<char>| #[trigger] part_ok(invalid::<i32>(w, m), w.next_flags),
        forall|m: Seq<char>| #[trigger] part_ok(dies::<i32>(w, m), w.next_flags),
        part_ok(pop(s, w), w.next_flags),
        forall|v: i32| #[trigger] part_ok(push(w, v), w.next_flags),
        forall|i: usize, v: i32| #[trigger] part_ok(reg_write(w, i, v), w.next_flags),
        forall|i: usize| #[trigger] part_ok(reg_read(w, i), w.next_flags),
{
}

proof fn lemma_read_keeps_shape(s: VMState, w: Work, o: OperandType, m: Seq<char>)
    requires
        w.regs.len() == 6,
        writes_fit(w),
    ensures
        part_ok(read_operand(s, w, o, m), w.next_flags),
{
}

proof fn lemma_stack_keeps_shape(s: VMState, w: Work, base: usize, addition: bool, offset: usize, v: i32)
    requires
        w.regs.len() == 6,
        writes_fit(w),
    ensures
        part_ok(set_stack(w, base, addition, offset, v), w.next_flags),
{
}

/// A step keeps the sizes of the registers, the stack and the memory, and
/// the program.
pub proof fn lemma_step_keeps_shape(s: VMState)
    requires
        well_sized(s),
    ensures
        step(s) matches Some((t, _)) ==> well_sized(t) && t.program == s.program,
{
    if !(s.status == MachineStatus::Dead || s.status == MachineStatus::Complete) {
        let w0 = Work {
            regs: if s.status == MachineStatus::Ready {
                s.registers.update(5, 0)
            } else {
                s.registers
            },
            stack_write: None,
            memory_write: None,
            next_flags: s.next_flags,
            status: if s.status == MachineStatus::Ready {
                MachineStatus::Running
            } else {
                s.status
            },
            output: s.output,
        };
        let cip = w0.regs[5];
        if s.program is Some && 0 <= cip < program_len(s) {
            lemma_execute_keeps_shape(s, Work { output: None, ..w0 }, s.program->0[cip as int]);
        }
    }
}

/// A machine that died or whose program has completed refuses to step: the
/// step fails with `Machine is dead` and changes nothing.
pub proof fn lemma_finished_machine_refuses(s: VMState)
    requires
        s.status == MachineStatus::Dead || s.status == MachineStatus::Complete,
    ensures
        step(s) == Some((s, Err::<(), Seq<char>>("Machine is dead"@))),
{
}

/// The states after two steps that both succeed.
pub open spec fn two_steps(s: VMState) -> Option<(VMState, VMState)> {
    match step(s) {
        Some((t, Ok(()))) => match step(t) {
            Some((u, Ok(()))) => Some((t, u)),
            _ => None,
        },
        _ => None,
    }
}

/// The `k`-th instruction of the program of a state that has one.
pub open spec fn instruction_at(s: VMState, k: int) -> Instruction {
    s.program->0[k]
}

/// A step from a state with no flag pending for the next step leaves none
/// pending: the flags an instruction computes become the current ones, and a
/// failing instruction computes none.
pub proof fn lemma_step_clears_pending_flags(s: VMState)
    requires
        well_sized(s),
        s.next_flags == 0,
    ensures
        step(s) matches Some((t, _)) ==> t.next_flags == 0,
{
    if !(s.status == MachineStatus::Dead || s.status == MachineStatus::Complete) {
        let w0 = Work {
            regs: if s.status == MachineStatus::Ready {
                s.registers.update(5, 0)
            } else {
                s.registers
            },
            stack_write: None,
            memory_write: None,
            next_flags: s.next_flags,
            status: if s.status == MachineStatus::Ready {
                MachineStatus::Running
            } else {
                s.status
            },
            output: s.output,
        };
        let cip = w0.regs[5];
        if s.program is Some && 0 <= cip < program_len(s) {
            lemma_execute_keeps_shape(s, Work { output: None, ..w0 }, s.program->0[cip as int]);
        }
    }
}

/// Pushing a literal and popping it into a register gives the register that
/// literal and leaves the other registers, the stack pointer among them, as
/// they were, whenever the stack has room for the push.
pub proof fn lemma_push_then_pop(s: VMState, v: i32, r: usize)
    requires
        well_sized(s),
        s.status == MachineStatus::Running,
        s.program is Some,
        0 <= s.registers[5],
        s.registers[5] + 1 < program_len(s),
        s.registers[5] + 2 <= i32::MAX,
        instruction_at(s, s.registers[5] as int).opcode == OpCodes::PUSH,
        instruction_at(s, s.registers[5] as int).operand_1 == (OperandType::Literal { value: v }),
        instruction_at(s, s.registers[5] + 1).opcode == OpCodes::POP,
        instruction_at(s, s.registers[5] + 1).operand_1 == (OperandType::Register { idx: r }),
        r < 6,
        r != 3,
        r != 5,
        1 <= s.registers[3] <= 256,
    ensures
        two_steps(s) matches Some((t, u)) && u.registers == s.registers.update(r as int, v).update(
            5,
            (s.registers[5] + 2) as i32,
        ) && u.status == (if s.registers[5] + 2 < program_len(s) {
            MachineStatus::Running
        } else {
            MachineStatus::Complete
        }),
{
    lemma_step_keeps_shape(s);
    let (t, u) = two_steps(s)->0;
    assert(u.registers =~= s.registers.update(r as int, v).update(5, (s.registers[5] + 2) as i32));
}

/// A call to a `ret` comes back to the instruction after the call, every
/// other register, the stack pointer among them, as it was, whenever the
/// stack has room for the return address.
pub proof fn lemma_call_then_return(s: VMState, offset: i32)
    requires
        well_sized(s),
        s.status == MachineStatus::Running,
        s.program is Some,
        0 <= s.registers[5] < program_len(s),
        0 <= s.registers[5] + offset < program_len(s),
        s.registers[5] + offset <= i32::MAX,
        s.registers[5] + 1 <= i32::MAX,
        instruction_at(s, s.registers[5] as int).opcode == OpCodes::CALL,
        instruction_at(s, s.registers[5] as int).operand_1 == (OperandType::Literal { value: offset }),
        instruction_at(s, s.registers[5] + offset).opcode == OpCodes::RET,
        1 <= s.registers[3] <= 256,
    ensures
        two_steps(s) matches Some((t, u)) && t.registers[5] == s.registers[5] + offset
            && u.registers == s.registers.update(5, (s.registers[5] + 1) as i32) && u.status == (
        if s.registers[5] + 1 < program_len(s) {
            MachineStatus::Running
        } else {
            MachineStatus::Complete
        }),
{
    lemma_step_keeps_shape(s);
    let (t, u) = two_steps(s)->0;
    assert(u.registers =~= s.registers.update(5, (s.registers[5] + 1) as i32));
}

proof fn lemma_flag_bits(x: u8)
    by (bit_vector)
    requires
        x == 1 || x == 2 || x == 4,
    ensures
        (0u8 | x) == x,
        (x & 1u8 != 0) == (x == 1),
        (x & 2u8 != 0) == (x == 2),
        (x & 4u8 != 0) == (x == 4),
{
}

/// Whether a jump is taken after comparing `a` with `b`: always for `jmp`,
/// when they are equal for `jz`, different for `jnz`, `a` smaller for `jn`,
/// `a` greater for `jp`.
pub open spec fn jump_taken(op: OpCodes, a: int, b: int) -> bool {
    match op {
        OpCodes::JMP => true,
        OpCodes::JZ => a == b,
        OpCodes::JNZ => a != b,
        OpCodes::JN => a < b,
        OpCodes::JP => a > b,
        _ => false,
    }
}

/// Comparing a register with a literal and then jumping jumps exactly as the
/// comparison says (see [`jump_taken`]), by the jump's offset from the jump
/// itself, and changes no other register.
pub proof fn lemma_compare_then_jump(s: VMState, a: usize, b: i32, j: OpCodes, offset: i32)
    requires
        well_sized(s),
        s.status == MachineStatus::Running,
        s.next_flags == 0,
        s.program is Some,
        0 <= s.registers[5],
        s.registers[5] + 1 < program_len(s),
        s.registers[5] + 2 <= i32::MAX,
        i32::MIN <= s.registers[5] + 1 + offset <= i32::MAX,
        a < 6,
        i32::MIN <= s.registers[a as int] - b <= i32::MAX,
        instruction_at(s, s.registers[5] as int) == (Instruction {
            opcode: OpCodes::CMP,
            operand_1: OperandType::Register { idx: a },
            operand_2: OperandType::Literal { value: b },
        }),
        j == OpCodes::JMP || j == OpCodes::JZ || j == OpCodes::JNZ || j == OpCodes::JN || j
            == OpCodes::JP,
        instruction_at(s, s.registers[5] + 1).opcode == j,
        instruction_at(s, s.registers[5] + 1).operand_1 == (OperandType::Literal { value: offset }),
    ensures
        two_steps(s) matches Some((t, u)) && u.registers == s.registers.update(
            5,
            (s.registers[5] + 1 + (if jump_taken(j, s.registers[a as int] as int, b as int) {
                offset as int
            } else {
                1
            })) as i32,
        ),
{
    lemma_step_keeps_shape(s);
    lemma_flag_bits(flag_of(s.registers[a as int] - b));
    let (t, u) = two_steps(s)->0;
    assert(u.registers =~= s.registers.update(
        5,
        (s.registers[5] + 1 + (if jump_taken(j, s.registers[a as int] as int, b as int) {
            offset as int
        } else {
            1
        })) as i32,
    ));
}

/// The stack index a stack operand `[R + n]` or `[R - n]` names: the value of
/// register `R` plus or minus `n`.
pub open spec fn operand_address(s: VMState, base: usize, addition: bool, offset: usize) -> int {
    if addition {
        s.registers[base as int] + offset
    } else {
        s.registers[base as int] - offset
    }
}

/// A stack operand `[R + n]` addresses the stack at `R + n`, and `[R - n]` at
/// `R - n`: moving a value to it writes that slot and no other, and moving it
/// to a register reads that slot.
pub proof fn lemma_stack_operand_addresses(
    s: VMState,
    base: usize,
    addition: bool,
    offset: usize,
    v: i32,
    r: usize,
)
    requires
        well_sized(s),
        s.status == MachineStatus::Running,
        s.program is Some,
        0 <= s.registers[5] < program_len(s),
        s.registers[5] + 1 <= i32::MAX,
        base < 6,
        offset <= i32::MAX,
        0 <= operand_address(s, base, addition, offset) < 256,
        r < 5,
    ensures
        instruction_at(s, s.registers[5] as int) == (Instruction {
            opcode: OpCodes::MOV,
            operand_1: OperandType::StackValue { base_register: base, addition, offset },
            operand_2: OperandType::Literal { value: v },
        }) ==> (step(s) matches Some((t, Ok(()))) && t.stack == s.stack.update(
            operand_address(s, base, addition, offset),
            v,
        ) && t.registers == s.registers.update(5, (s.registers[5] + 1) as i32)),
        instruction_at(s, s.registers[5] as int) == (Instruction {
            opcode: OpCodes::MOV,
            operand_1: OperandType::Register { idx: r },
            operand_2: OperandType::StackValue { base_register: base, addition, offset },
        }) ==> (step(s) matches Some((t, Ok(()))) && t.registers[r as int] == s.stack[operand_address(
            s,
            base,
            addition,
            offset,
        )] && t.stack == s.stack),
{
}

/// What the arithmetic instructions compute: `add`, `sub` and `mul` give the
/// sum, the difference (first operand minus second) and the product when it
/// fits an `i32`; `div` and `mod` give, for a non-zero divisor and no
/// overflow, the quotient `q` and remainder `r` with `a == q * b + r`, the
/// remainder smaller than the divisor in size and of the sign of `a` (the
/// quotient rounds toward zero).
pub proof fn lemma_arithmetic_results(a: i32, b: i32)
    ensures
        arithmetic(OpCodes::ADD, a, b) == (if i32::MIN <= a + b <= i32::MAX {
            Some((a + b) as i32)
        } else {
            None
        }),
        arithmetic(OpCodes::SUB, a, b) == (if i32::MIN <= a - b <= i32::MAX {
            Some((a - b) as i32)
        } else {
            None
        }),
        arithmetic(OpCodes::MUL, a, b) == (if i32::MIN <= a * b <= i32::MAX {
            Some((a * b) as i32)
        } else {
            None
        }),
        (b == 0 || (a == i32::MIN && b == -1)) ==> arithmetic(OpCodes::DIV, a, b) is None
            && arithmetic(OpCodes::MOD, a, b) is None,
        !(b == 0 || (a == i32::MIN && b == -1)) ==> ({
            let q = arithmetic(OpCodes::DIV, a, b);
            let r = arithmetic(OpCodes::MOD, a, b);
            &&& q is Some && r is Some
            &&& a == q->0 * b + r->0
            &&& (if r->0 >= 0 { r->0 as int } else { -r->0 }) < (if b >= 0 { b as int } else { -b })
            &&& (r->0 > 0 ==> a > 0)
            &&& (r->0 < 0 ==> a < 0)
        }),
{
    if !(b == 0 || (a == i32::MIN && b == -1)) {
        let aa: int = if a >= 0 { a as int } else { -a };
        let bb: int = if b >= 0 { b as int } else { -b };
        let q0 = aa / bb;
        let r0 = aa % bb;
        assert(aa == q0 * bb + r0 && 0 <= r0 < bb) by (nonlinear_arith)
            requires
                bb > 0,
                aa >= 0,
                q0 == aa / bb,
                r0 == aa % bb,
        ;
        assert(0 <= q0 <= aa && (bb >= 2 ==> 2 * q0 <= aa)) by (nonlinear_arith)
            requires
                bb >= 1,
                aa >= 0,
                aa == q0 * bb + r0,
                0 <= r0 < bb,
        ;
        let qs: int = if (a >= 0) == (b >= 0) { q0 } else { -q0 };
        assert(i32::MIN <= qs <= i32::MAX);
        assert(div_toward_zero(a, b) as int == qs);
        let rr: int = a - qs * b;
        if a >= 0 && b >= 0 {
            assert(rr == r0);
        } else if a >= 0 && b < 0 {
            assert(rr == r0) by (nonlinear_arith)
                requires
                    rr == a - qs * b,
                    qs == -q0,
                    bb == -b,
                    aa == a,
                    aa == q0 * bb + r0,
            ;
        } else if a < 0 && b >= 0 {
            assert(rr == -r0) by (nonlinear_arith)
                requires
                    rr == a - qs * b,
                    qs == -q0,
                    bb == b,
                    aa == -a,
                    aa == q0 * bb + r0,
            ;
        } else {
            assert(rr == -r0) by (nonlinear_arith)
                requires
                    rr == a - qs * b,
                    qs == q0,
                    bb == -b,
                    aa == -a,
                    aa == q0 * bb + r0,
            ;
        }
        assert(rem_toward_zero(a, b) as int == rr);
    }
}

/// An arithmetic instruction on a register and a literal replaces the
/// register's value by the result of the operation on the two values (see
/// [`lemma_arithmetic_results`]) and changes no other register but `CIP`.
pub proof fn lemma_arithmetic_step(s: VMState, op: OpCodes, r: usize, b: i32)
    requires
        well_sized(s),
        s.status == MachineStatus::Running,
        s.program is Some,
        0 <= s.registers[5] < program_len(s),
        s.registers[5] + 1 <= i32::MAX,
        r < 5,
        op == OpCodes::ADD || op == OpCodes::SUB || op == OpCodes::MUL || op == OpCodes::DIV || op
            == OpCodes::MOD,
        instruction_at(s, s.registers[5] as int) == (Instruction {
            opcode: op,
            operand_1: OperandType::Register { idx: r },
            operand_2: OperandType::Literal { value: b },
        }),
        arithmetic(op, s.registers[r as int], b) is Some,
    ensures
        step(s) matches Some((t, Ok(()))) && t.registers == s.registers.update(
            r as int,
            arithmetic(op, s.registers[r as int], b)->0,
        ).update(5, (s.registers[5] + 1) as i32) && t.stack == s.stack,
{
}

/// A push stores its value just below the top of the stack and moves the
/// stack pointer down by one; a pop reads the top of the stack and moves the
/// stack pointer up by one.
pub proof fn lemma_push_and_pop_step(s: VMState, v: i32, r: usize)
    requires
        well_sized(s),
        s.status == MachineStatus::Running,
        s.program is Some,
        0 <= s.registers[5] < program_len(s),
        s.registers[5] + 1 <= i32::MAX,
        r < 5,
        r != 3,
    ensures
        instruction_at(s, s.registers[5] as int) == (Instruction {
            opcode: OpCodes::PUSH,
            operand_1: OperandType::Literal { value: v },
            operand_2: OperandType::NoOperand,
        }) && 1 <= s.registers[3] <= 256 ==> (step(s) matches Some((t, Ok(())))
            && t.stack == s.stack.update(s.registers[3] - 1, v) && t.registers == s.registers.update(
            3,
            (s.registers[3] - 1) as i32,
        ).update(5, (s.registers[5] + 1) as i32)),
        instruction_at(s, s.registers[5] as int) == (Instruction {
            opcode: OpCodes::POP,
            operand_1: OperandType::Register { idx: r },
            operand_2: OperandType::NoOperand,
        }) && 0 <= s.registers[3] <= 255 ==> (step(s) matches Some((t, Ok(())))
            && t.stack == s.stack && t.registers == s.registers.update(
            3,
            (s.registers[3] + 1) as i32,
        ).update(r as int, s.stack[s.registers[3] as int]).update(5, (s.registers[5] + 1) as i32)),
{
}

} // verus!
