//! The instruction set, operands, registers, flags and memory map of the
//! virtual machine.
use vstd::prelude::*;

use crate::text::{extend_chars, push_int_chars, push_nat_digits, str_chars, string_from_chars};

verus! {

/// The operations of the machine.
#[derive(Debug, Clone, Copy, PartialEq, Eq, Structural)]
pub enum OpCodes {
    MOV,
    STORE,
    LOAD,
    ADD,
    SUB,
    MUL,
    DIV,
    MOD,
    CMP,
    JMP,
    JZ,
    JNZ,
    JN,
    JP,
    CALL,
    RET,
    POP,
    PUSH,
    PRINT,
    HLT,
}

impl OpCodes {
    /// The name of the operation, as `Debug` prints it.
    pub open spec fn spec_name(self) -> Seq<char> {
        match self {
            OpCodes::MOV => "MOV"@,
            OpCodes::STORE => "STORE"@,
            OpCodes::LOAD => "LOAD"@,
            OpCodes::ADD => "ADD"@,
            OpCodes::SUB => "SUB"@,
            OpCodes::MUL => "MUL"@,
            OpCodes::DIV => "DIV"@,
            OpCodes::MOD => "MOD"@,
            OpCodes::CMP => "CMP"@,
            OpCodes::JMP => "JMP"@,
            OpCodes::JZ => "JZ"@,
            OpCodes::JNZ => "JNZ"@,
            OpCodes::JN => "JN"@,
            OpCodes::JP => "JP"@,
            OpCodes::CALL => "CALL"@,
            OpCodes::RET => "RET"@,
            OpCodes::POP => "POP"@,
            OpCodes::PUSH => "PUSH"@,
            OpCodes::PRINT => "PRINT"@,
            OpCodes::HLT => "HLT"@,
        }
    }

    /// The name of the operation.
    pub fn name(&self) -> (r: &'static str)
        ensures
            r@ == self.spec_name(),
    {
        match self {
            OpCodes::MOV => "MOV",
            OpCodes::STORE => "STORE",
            OpCodes::LOAD => "LOAD",
            OpCodes::ADD => "ADD",
            OpCodes::SUB => "SUB",
            OpCodes::MUL => "MUL",
            OpCodes::DIV => "DIV",
            OpCodes::MOD => "MOD",
            OpCodes::CMP => "CMP",
            OpCodes::JMP => "JMP",
            OpCodes::JZ => "JZ",
            OpCodes::JNZ => "JNZ",
            OpCodes::JN => "JN",
            OpCodes::JP => "JP",
            OpCodes::CALL => "CALL",
            OpCodes::RET => "RET",
            OpCodes::POP => "POP",
            OpCodes::PUSH => "PUSH",
            OpCodes::PRINT => "PRINT",
            OpCodes::HLT => "HLT",
        }
    }
}

/// An operand: a register by index, a literal, a value of the stack at an
/// offset from a register, or nothing.
#[derive(Debug, Clone, Copy, PartialEq, Eq, Structural)]
pub enum OperandType {
    Register { idx: usize },
    Literal { value: i32 },
    StackValue { base_register: usize, addition: bool, offset: usize },
    NoOperand,
}

/// The registers, in the order of their indexes.
#[derive(Debug, Clone, Copy, PartialEq, Eq, Structural)]
pub enum Registers {
    GPA,
    GPB,
    SBP,
    TSP,
    FRV,
    CIP,
}

impl Registers {
    /// The index of the register.
    pub open spec fn spec_index(self) -> usize {
        match self {
            Registers::GPA => 0,
            Registers::GPB => 1,
            Registers::SBP => 2,
            Registers::TSP => 3,
            Registers::FRV => 4,
            Registers::CIP => 5,
        }
    }

    /// The index of the register.
    pub fn index(&self) -> (r: usize)
        ensures
            r == self.spec_index(),
    {
        match self {
            Registers::GPA => 0,
            Registers::GPB => 1,
            Registers::SBP => 2,
            Registers::TSP => 3,
            Registers::FRV => 4,
            Registers::CIP => 5,
        }
    }
}

/// The name of the register at `idx`, or nothing past the last one.
pub open spec fn register_name(idx: usize) -> Option<Seq<char>> {
    if idx == 0 {
        Some("GPA"@)
    } else if idx == 1 {
        Some("GPB"@)
    } else if idx == 2 {
        Some("SBP"@)
    } else if idx == 3 {
        Some("TSP"@)
    } else if idx == 4 {
        Some("FRV"@)
    } else if idx == 5 {
        Some("CIP"@)
    } else {
        None
    }
}

/// The index of register `idx` in the machine.
pub const GPA: usize = 0;
pub const GPB: usize = 1;
pub const SBP: usize = 2;
pub const TSP: usize = 3;
pub const FRV: usize = 4;
pub const CIP: usize = 5;

/// The flags a comparison or an arithmetic instruction sets.
#[derive(Debug, Clone, Copy, PartialEq, Eq, Structural)]
pub enum Flags {
    ZeroFlag,
    NegativeFlag,
    PositiveFlag,
}

impl Flags {
    /// The bit of the flag in the flag byte.
    pub open spec fn spec_bit(self) -> u8 {
        match self {
            Flags::ZeroFlag => 1,
            Flags::NegativeFlag => 2,
            Flags::PositiveFlag => 4,
        }
    }

    /// The bit of the flag in the flag byte.
    pub fn bit(&self) -> (r: u8)
        ensures
            r == self.spec_bit(),
    {
        match self {
            Flags::ZeroFlag => 1,
            Flags::NegativeFlag => 2,
            Flags::PositiveFlag => 4,
        }
    }

    /// The name of the flag.
    pub open spec fn spec_name(self) -> Seq<char> {
        match self {
            Flags::ZeroFlag => "ZeroFlag"@,
            Flags::NegativeFlag => "NegativeFlag"@,
            Flags::PositiveFlag => "PositiveFlag"@,
        }
    }

    /// The name of the flag.
    pub fn to_string(&self) -> (r: String)
        ensures
            r@ == self.spec_name(),
    {
        match self {
            Flags::ZeroFlag => string_from_chars(&str_chars("ZeroFlag")),
            Flags::NegativeFlag => string_from_chars(&str_chars("NegativeFlag")),
            Flags::PositiveFlag => string_from_chars(&str_chars("PositiveFlag")),
        }
    }

    /// All flags, in order.
    pub fn all() -> (r: Vec<Flags>)
        ensures
            r@ == seq![Flags::ZeroFlag, Flags::NegativeFlag, Flags::PositiveFlag],
    {
        let mut r = Vec::new();
        r.push(Flags::ZeroFlag);
        r.push(Flags::NegativeFlag);
        r.push(Flags::PositiveFlag);
        assert(r@ =~= seq![Flags::ZeroFlag, Flags::NegativeFlag, Flags::PositiveFlag]);
        r
    }
}

/// The states of the machine.
#[derive(Debug, Clone, Copy, PartialEq, Eq, Structural)]
pub enum MachineStatus {
    Empty,
    Ready,
    Running,
    Dead,
    Complete,
}

/// The memory-mapped properties of the bot, in the order of their addresses.
#[derive(Debug, Clone, Copy, PartialEq, Eq, Structural)]
pub enum MemoryMappedProperties {
    Velocity,
    VelocityX,
    VelocityY,
    Moment,
    Rotation,
    PositionX,
    PositionY,
    Ray0Dist,
    Ray0Type,
    Ray1Dist,
    Ray1Type,
    Ray2Dist,
    Ray2Type,
    Ray3Dist,
    Ray3Type,
    Ray4Dist,
    Ray4Type,
    Ray5Dist,
    Ray5Type,
    Ray6Dist,
    Ray6Type,
}

impl MemoryMappedProperties {
    /// The address of the property in memory.
    pub open spec fn spec_address(self) -> i32 {
        match self {
            MemoryMappedProperties::Velocity => 0,
            MemoryMappedProperties::VelocityX => 1,
            MemoryMappedProperties::VelocityY => 2,
            MemoryMappedProperties::Moment => 3,
            MemoryMappedProperties::Rotation => 4,
            MemoryMappedProperties::PositionX => 5,
            MemoryMappedProperties::PositionY => 6,
            MemoryMappedProperties::Ray0Dist => 7,
            MemoryMappedProperties::Ray0Type => 8,
            MemoryMappedProperties::Ray1Dist => 9,
            MemoryMappedProperties::Ray1Type => 10,
            MemoryMappedProperties::Ray2Dist => 11,
            MemoryMappedProperties::Ray2Type => 12,
            MemoryMappedProperties::Ray3Dist => 13,
            MemoryMappedProperties::Ray3Type => 14,
            MemoryMappedProperties::Ray4Dist => 15,
            MemoryMappedProperties::Ray4Type => 16,
            MemoryMappedProperties::Ray5Dist => 17,
            MemoryMappedProperties::Ray5Type => 18,
            MemoryMappedProperties::Ray6Dist => 19,
            MemoryMappedProperties::Ray6Type => 20,
        }
    }

    /// The address of the property in memory.
    pub fn address(&self) -> (r: i32)
        ensures
            r == self.spec_address(),
    {
        match self {
            MemoryMappedProperties::Velocity => 0,
            MemoryMappedProperties::VelocityX => 1,
            MemoryMappedProperties::VelocityY => 2,
            MemoryMappedProperties::Moment => 3,
            MemoryMappedProperties::Rotation => 4,
            MemoryMappedProperties::PositionX => 5,
            MemoryMappedProperties::PositionY => 6,
            MemoryMappedProperties::Ray0Dist => 7,
            MemoryMappedProperties::Ray0Type => 8,
            MemoryMappedProperties::Ray1Dist => 9,
            MemoryMappedProperties::Ray1Type => 10,
            MemoryMappedProperties::Ray2Dist => 11,
            MemoryMappedProperties::Ray2Type => 12,
            MemoryMappedProperties::Ray3Dist => 13,
            MemoryMappedProperties::Ray3Type => 14,
            MemoryMappedProperties::Ray4Dist => 15,
            MemoryMappedProperties::Ray4Type => 16,
            MemoryMappedProperties::Ray5Dist => 17,
            MemoryMappedProperties::Ray5Type => 18,
            MemoryMappedProperties::Ray6Dist => 19,
            MemoryMappedProperties::Ray6Type => 20,
        }
    }
}

/// The property a name (written after `$` in a program) stands for.
pub open spec fn property_named(name: Seq<char>) -> Option<MemoryMappedProperties> {
    if name == "Velocity"@ {
        Some(MemoryMappedProperties::Velocity)
    } else if name == "VelocityX"@ {
        Some(MemoryMappedProperties::VelocityX)
    } else if name == "VelocityY"@ {
        Some(MemoryMappedProperties::VelocityY)
    } else if name == "Moment"@ {
        Some(MemoryMappedProperties::Moment)
    } else if name == "Rotation"@ {
        Some(MemoryMappedProperties::Rotation)
    } else if name == "PositionX"@ {
        Some(MemoryMappedProperties::PositionX)
    } else if name == "PositionY"@ {
        Some(MemoryMappedProperties::PositionY)
    } else if name == "Ray0Dist"@ {
        Some(MemoryMappedProperties::Ray0Dist)
    } else if name == "Ray0Type"@ {
        Some(MemoryMappedProperties::Ray0Type)
    } else if name == "Ray1Dist"@ {
        Some(MemoryMappedProperties::Ray1Dist)
    } else if name == "Ray1Type"@ {
        Some(MemoryMappedProperties::Ray1Type)
    } else if name == "Ray2Dist"@ {
        Some(MemoryMappedProperties::Ray2Dist)
    } else if name == "Ray2Type"@ {
        Some(MemoryMappedProperties::Ray2Type)
    } else if name == "Ray3Dist"@ {
        Some(MemoryMappedProperties::Ray3Dist)
    } else if name == "Ray3Type"@ {
        Some(MemoryMappedProperties::Ray3Type)
    } else if name == "Ray4Dist"@ {
        Some(MemoryMappedProperties::Ray4Dist)
    } else if name == "Ray4Type"@ {
        Some(MemoryMappedProperties::Ray4Type)
    } else if name == "Ray5Dist"@ {
        Some(MemoryMappedProperties::Ray5Dist)
    } else if name == "Ray5Type"@ {
        Some(MemoryMappedProperties::Ray5Type)
    } else if name == "Ray6Dist"@ {
        Some(MemoryMappedProperties::Ray6Dist)
    } else if name == "Ray6Type"@ {
        Some(MemoryMappedProperties::Ray6Type)
    } else {
        None
    }
}

} // verus!
