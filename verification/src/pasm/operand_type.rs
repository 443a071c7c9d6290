//! The operands of pseudo-assembly instructions.
use vstd::prelude::*;

use crate::text::{
    extend_chars, int_chars, nat_digits, push_int_chars, push_nat_digits, starts_with_char,
    str_chars, string_chars, string_from_chars, string_starts_with,
};

verus! {

/// An operand: a named variable, a literal, a memory access, a register or a
/// slot of the stack.
#[derive(Debug)]
pub enum OperandType {
    /// A variable; a name starting with `'` names a register and one starting
    /// with `$` a memory-mapped value.
    Identifier { name: String },
    Literal { value: i32 },
    /// `[base + offset]`, the offset being an identifier, a literal or a register.
    MemoryOffset { base: Box<OperandType>, offset: Box<OperandType> },
    Memory { name: String },
    Register { name: String },
    /// `[register operation offset]`.
    Stack { register: Box<OperandType>, operation: String, offset: usize },
}

/// The mathematical value of an [`OperandType`].
pub enum OperandView {
    Identifier { name: Seq<char> },
    Literal { value: i32 },
    MemoryOffset { base: Box<OperandView>, offset: Box<OperandView> },
    Memory { name: Seq<char> },
    Register { name: Seq<char> },
    Stack { register: Box<OperandView>, operation: Seq<char>, offset: usize },
}

pub open spec fn operand_view(o: OperandType) -> OperandView
    decreases o,
{
    match o {
        OperandType::Identifier { name } => OperandView::Identifier { name: name@ },
        OperandType::Literal { value } => OperandView::Literal { value },
        OperandType::MemoryOffset { base, offset } => OperandView::MemoryOffset {
            base: Box::new(operand_view(*base)),
            offset: Box::new(operand_view(*offset)),
        },
        OperandType::Memory { name } => OperandView::Memory { name: name@ },
        OperandType::Register { name } => OperandView::Register { name: name@ },
        OperandType::Stack { register, operation, offset } => OperandView::Stack {
            register: Box::new(operand_view(*register)),
            operation: operation@,
            offset,
        },
    }
}

impl View for OperandType {
    type V = OperandView;

    open spec fn view(&self) -> OperandView {
        operand_view(*self)
    }
}

/// Whether an operand is a variable whose name starts with `c`.
pub open spec fn identifier_starting(o: OperandView, c: char) -> bool {
    o matches OperandView::Identifier { name } && starts_with_char(name, c)
}

/// Whether an operand names a register (a variable written `'NAME`).
pub open spec fn names_register(o: OperandView) -> bool {
    identifier_starting(o, '\'')
}

/// Whether an operand names a memory value (a variable written `$NAME`).
pub open spec fn names_memory(o: OperandView) -> bool {
    identifier_starting(o, '$')
}

/// The text of an operand: `@name`, `#value`, `$name`, `'name`,
/// `[register operation offset]` or `[base + offset]`.
pub open spec fn operand_text(o: OperandView) -> Seq<char>
    decreases o,
{
    match o {
        OperandView::Identifier { name } => "@"@ + name,
        OperandView::Memory { name } => "$"@ + name,
        OperandView::Register { name } => "'"@ + name,
        OperandView::Literal { value } => "#"@ + int_chars(value as int),
        OperandView::Stack { register, operation, offset } => "["@ + operand_text(*register) + " "@
            + operation + " "@ + nat_digits(offset as nat) + "]"@,
        OperandView::MemoryOffset { base, offset } => "["@ + operand_text(*base) + " + "@
            + operand_text(*offset) + "]"@,
    }
}

/// Appends the text of an operand.
pub fn push_operand_text(o: &OperandType, out: &mut Vec<char>)
    ensures
        final(out)@ == old(out)@ + operand_text(o@),
    decreases o,
{
    match o {
        OperandType::Identifier { name } => {
            out.push('@');
            extend_chars(out, &string_chars(name));
        },
        OperandType::Memory { name } => {
            out.push('$');
            extend_chars(out, &string_chars(name));
        },
        OperandType::Register { name } => {
            out.push('\'');
            extend_chars(out, &string_chars(name));
        },
        OperandType::Literal { value } => {
            out.push('#');
            push_int_chars(out, *value as i64);
        },
        OperandType::Stack { register, operation, offset } => {
            out.push('[');
            push_operand_text(register, out);
            out.push(' ');
            extend_chars(out, &string_chars(operation));
            out.push(' ');
            push_nat_digits(out, *offset as u64);
            out.push(']');
        },
        OperandType::MemoryOffset { base, offset } => {
            out.push('[');
            push_operand_text(base, out);
            extend_chars(out, &str_chars(" + "));
            push_operand_text(offset, out);
            out.push(']');
        },
    }
    proof {
        reveal_strlit("@");
        reveal_strlit("$");
        reveal_strlit("'");
        reveal_strlit("#");
        reveal_strlit("[");
        reveal_strlit(" ");
        reveal_strlit("]");
    }
}

/// How a stack slot writes the sign of its offset: `+` below the register,
/// `-` at or above it.
pub open spec fn stack_sign(offset: i32) -> Seq<char> {
    if offset < 0 {
        "+"@
    } else {
        "-"@
    }
}

impl OperandType {
    /// A literal.
    pub fn new_literal(value: i32) -> (r: OperandType)
        ensures
            r@ == (OperandView::Literal { value }),
    {
        OperandType::Literal { value }
    }

    /// The stack slot at `offset` from `register`: a negative offset is written
    /// `+` and its magnitude, another `-` and its value.
    pub fn new_stack(register: &str, offset: i32) -> (r: OperandType)
        requires
            offset != i32::MIN,
        ensures
            r@ == (OperandView::Stack {
                register: Box::new(OperandView::Register { name: register@ }),
                operation: stack_sign(offset),
                offset: (if offset < 0 { -offset } else { offset as int }) as usize,
            }),
    {
        let magnitude: i32 = if offset < 0 { -offset } else { offset };
        let reg = OperandType::Register { name: string_from_chars(&str_chars(register)) };
        assert(reg@ == (OperandView::Register { name: register@ }));
        let operation = if offset < 0 { String::from_str("+") } else { String::from_str("-") };
        assert(operation@ == stack_sign(offset));
        OperandType::Stack { register: Box::new(reg), operation, offset: magnitude as usize }
    }

    /// A register.
    pub fn new_register(name: &str) -> (r: OperandType)
        ensures
            r@ == (OperandView::Register { name: name@ }),
    {
        OperandType::Register { name: string_from_chars(&str_chars(name)) }
    }

    /// Whether this operand is a variable naming a register (`'NAME`).
    pub fn is_register(&self) -> (r: bool)
        ensures
            r == names_register(self@),
    {
        match self {
            OperandType::Identifier { name } => string_starts_with(name, '\''),
            _ => false,
        }
    }

    /// Whether this operand is a variable naming a memory value (`$NAME`).
    pub fn is_memory(&self) -> (r: bool)
        ensures
            r == names_memory(self@),
    {
        match self {
            OperandType::Identifier { name } => string_starts_with(name, '$'),
            _ => false,
        }
    }

    /// Whether this operand is neither a register variable nor a memory variable.
    pub fn is_frame_variable(&self) -> (r: bool)
        ensures
            r == (!names_register(self@) && !names_memory(self@)),
    {
        !self.is_register() && !self.is_memory()
    }

    /// The name of this operand when it is a variable of the stack frame.
    pub fn get_frame_variable(&self) -> (r: Option<String>)
        ensures
            match self@ {
                OperandView::Identifier { name } => if !names_register(self@) && !names_memory(
                    self@,
                ) {
                    r matches Some(s) && s@ == name
                } else {
                    r is None
                },
                _ => r is None,
            },
    {
        match self {
            OperandType::Identifier { name } => {
                if self.is_frame_variable() {
                    Some(name.clone())
                } else {
                    None
                }
            },
            _ => None,
        }
    }

    /// The name of this operand when it is a variable naming a register.
    pub fn get_register_name(&self) -> (r: Option<String>)
        ensures
            match self@ {
                OperandView::Identifier { name } => if starts_with_char(name, '\'') {
                    r matches Some(s) && s@ == name
                } else {
                    r is None
                },
                _ => r is None,
            },
    {
        match self {
            OperandType::Identifier { name } => {
                if string_starts_with(name, '\'') {
                    Some(name.clone())
                } else {
                    None
                }
            },
            _ => None,
        }
    }

    /// A copy of this operand.
    pub fn duplicate(&self) -> (r: OperandType)
        ensures
            r@ == self@,
        decreases self,
    {
        match self {
            OperandType::Identifier { name } => OperandType::Identifier { name: name.clone() },
            OperandType::Literal { value } => OperandType::Literal { value: *value },
            OperandType::MemoryOffset { base, offset } => OperandType::MemoryOffset {
                base: Box::new(base.duplicate()),
                offset: Box::new(offset.duplicate()),
            },
            OperandType::Memory { name } => OperandType::Memory { name: name.clone() },
            OperandType::Register { name } => OperandType::Register { name: name.clone() },
            OperandType::Stack { register, operation, offset } => OperandType::Stack {
                register: Box::new(register.duplicate()),
                operation: operation.clone(),
                offset: *offset,
            },
        }
    }

    /// The text of this operand, as [`operand_text`] gives it.
    pub fn to_string(&self) -> (r: String)
        ensures
            r@ == operand_text(self@),
    {
        let mut out: Vec<char> = Vec::new();
        push_operand_text(self, &mut out);
        string_from_chars(&out)
    }
}

} // verus!
