//! Instructions of the machine, programs, and the names a program can read.
use vstd::prelude::*;

use super::enums::{register_name, OpCodes, OperandType};
use crate::text::{
    extend_chars, int_chars, nat_digits, push_int_chars, push_nat_digits, str_chars,
    string_from_chars, to_owned_string,
};

verus! {

/// An instruction: an operation and up to two operands.
#[derive(Debug, Clone, Copy, PartialEq, Eq, Structural)]
pub struct Instruction {
    pub opcode: OpCodes,
    pub operand_1: OperandType,
    pub operand_2: OperandType,
}

/// A program: the file it was read from and its instructions.
#[derive(Debug)]
pub struct Program {
    pub original_file: String,
    pub instructions: Vec<Instruction>,
}

/// How an operand prints: `'NAME` for a register, `#value` for a literal,
/// `['NAME +|- offset]` for a stack value, nothing for no operand.
pub open spec fn operand_text(o: OperandType) -> Seq<char> {
    match o {
        OperandType::Register { idx } => "'"@ + register_text(idx),
        OperandType::Literal { value } => "#"@ + int_chars(value as int),
        OperandType::StackValue { base_register, addition, offset } => "['"@ + register_text(
            base_register,
        ) + (if addition {
            " + "@
        } else {
            " - "@
        }) + nat_digits(offset as nat) + "]"@,
        OperandType::NoOperand => seq![],
    }
}

/// The name of a register, or `R` and its index when there is none.
pub open spec fn register_text(idx: usize) -> Seq<char> {
    match register_name(idx) {
        Some(n) => n,
        None => "R"@ + nat_digits(idx as nat),
    }
}

/// How an instruction prints: its operation, then its operands, separated by spaces.
pub open spec fn instruction_text(i: Instruction) -> Seq<char> {
    i.opcode.spec_name() + " "@ + operand_text(i.operand_1) + " "@ + operand_text(i.operand_2)
}

fn push_register_text(out: &mut Vec<char>, idx: usize)
    ensures
        final(out)@ == old(out)@ + register_text(idx),
{
    let name = if idx == 0 {
        "GPA"
    } else if idx == 1 {
        "GPB"
    } else if idx == 2 {
        "SBP"
    } else if idx == 3 {
        "TSP"
    } else if idx == 4 {
        "FRV"
    } else if idx == 5 {
        "CIP"
    } else {
        out.push('R');
        push_nat_digits(out, idx as u64);
        proof {
            reveal_strlit("R");
        }
        return;
    };
    extend_chars(out, &str_chars(name));
}

/// Appends the text of an operand.
pub fn push_operand_text(out: &mut Vec<char>, o: OperandType)
    ensures
        final(out)@ == old(out)@ + operand_text(o),
{
    match o {
        OperandType::Register { idx } => {
            out.push('\'');
            push_register_text(out, idx);
        },
        OperandType::Literal { value } => {
            out.push('#');
            push_int_chars(out, value as i64);
        },
        OperandType::StackValue { base_register, addition, offset } => {
            extend_chars(out, &str_chars("['"));
            push_register_text(out, base_register);
            if addition {
                extend_chars(out, &str_chars(" + "));
            } else {
                extend_chars(out, &str_chars(" - "));
            }
            push_nat_digits(out, offset as u64);
            out.push(']');
        },
        OperandType::NoOperand => {},
    }
    proof {
        reveal_strlit("'");
        reveal_strlit("#");
        reveal_strlit("]");
    }
}

impl Instruction {
    /// The text of the instruction, as [`instruction_text`] gives it.
    pub fn to_string(&self) -> (r: String)
        ensures
            r@ == instruction_text(*self),
    {
        let mut out = str_chars(self.opcode.name());
        out.push(' ');
        push_operand_text(&mut out, self.operand_1);
        out.push(' ');
        push_operand_text(&mut out, self.operand_2);
        proof {
            reveal_strlit(" ");
        }
        string_from_chars(&out)
    }
}

/// The names of the values a program can read from the bot.
pub open spec fn special_variables() -> Seq<Seq<char>> {
    seq!["$Position"@, "$Rotation"@, "$RayDist"@, "$RayType"@, "$Velocity"@, "$Moment"@]
}

/// The names of the values a program can read from the bot: `$Position`,
/// `$Rotation`, `$RayDist`, `$RayType`, `$Velocity` and `$Moment`.
pub fn get_special_variables() -> (r: Vec<String>)
    ensures
        r@.map_values(|s: String| s@) == special_variables(),
{
    let mut r: Vec<String> = Vec::new();
    r.push(to_owned_string("$Position"));
    r.push(to_owned_string("$Rotation"));
    r.push(to_owned_string("$RayDist"));
    r.push(to_owned_string("$RayType"));
    r.push(to_owned_string("$Velocity"));
    r.push(to_owned_string("$Moment"));
    assert(r@.map_values(|s: String| s@) =~= special_variables());
    r
}

} // verus!
