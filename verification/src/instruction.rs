//! The opcode table: a total mapping from instruction bytes to symbolic
//! operations.  Every byte value decodes to some opcode; bytes with no
//! defined operation map to the sentinel [`Opcode::Illegal`], so decoding
//! never fails.

use vstd::prelude::*;

verus! {

/// A symbolic machine operation.  The first byte of every instruction
/// selects one of these; any byte without a defined mapping selects
/// `Illegal`.
#[derive(Debug, Clone, Copy, PartialEq, Eq, Structural)]
pub enum Opcode {
    /// Store a 16-bit big-endian immediate into a register.
    Load,
    /// `registers[dest] = registers[src1] + registers[src2]` (wrapping).
    Add,
    /// `registers[dest] = registers[src1] - registers[src2]` (wrapping).
    Sub,
    /// `registers[dest] = registers[src1] * registers[src2]` (wrapping).
    Mul,
    /// Truncating signed division; also stores the remainder.
    Div,
    /// Deliberate, successful termination.
    Halt,
    /// Absolute jump to the byte offset held in a register.
    Jmp,
    /// Relative forward jump by the offset held in a register.
    Jmpf,
    /// Relative backward jump by the offset held in a register.
    Jmpb,
    /// Set the equal flag to `registers[a] == registers[b]`.
    Eq,
    /// Set the equal flag to `registers[a] != registers[b]`.
    Neq,
    /// Set the equal flag to `registers[a] >= registers[b]`.
    Gte,
    /// Set the equal flag to `registers[a] <= registers[b]`.
    Lte,
    /// Set the equal flag to `registers[a] < registers[b]`.
    Lt,
    /// Set the equal flag to `registers[a] > registers[b]`.
    Gt,
    /// Absolute jump, taken only when the equal flag is set.
    Jmpe,
    /// Sentinel for any byte with no defined operation.
    Illegal,
}

/// The byte-to-opcode table as a mathematical function.  Total: every byte
/// maps to exactly one opcode.
pub open spec fn opcode_of(b: u8) -> Opcode {
    if b == 0 {
        Opcode::Load
    } else if b == 1 {
        Opcode::Add
    } else if b == 2 {
        Opcode::Sub
    } else if b == 3 {
        Opcode::Mul
    } else if b == 4 {
        Opcode::Div
    } else if b == 5 {
        Opcode::Halt
    } else if b == 6 {
        Opcode::Jmp
    } else if b == 7 {
        Opcode::Jmpf
    } else if b == 8 {
        Opcode::Jmpb
    } else if b == 9 {
        Opcode::Eq
    } else if b == 10 {
        Opcode::Neq
    } else if b == 11 {
        Opcode::Gte
    } else if b == 12 {
        Opcode::Lte
    } else if b == 13 {
        Opcode::Lt
    } else if b == 14 {
        Opcode::Gt
    } else if b == 15 {
        Opcode::Jmpe
    } else {
        Opcode::Illegal
    }
}

impl From<u8> for Opcode {
    /// Decode one byte through the opcode table.
    fn from(b: u8) -> (op: Opcode) {
        if b == 0 {
            Opcode::Load
        } else if b == 1 {
            Opcode::Add
        } else if b == 2 {
            Opcode::Sub
        } else if b == 3 {
            Opcode::Mul
        } else if b == 4 {
            Opcode::Div
        } else if b == 5 {
            Opcode::Halt
        } else if b == 6 {
            Opcode::Jmp
        } else if b == 7 {
            Opcode::Jmpf
        } else if b == 8 {
            Opcode::Jmpb
        } else if b == 9 {
            Opcode::Eq
        } else if b == 10 {
            Opcode::Neq
        } else if b == 11 {
            Opcode::Gte
        } else if b == 12 {
            Opcode::Lte
        } else if b == 13 {
            Opcode::Lt
        } else if b == 14 {
            Opcode::Gt
        } else if b == 15 {
            Opcode::Jmpe
        } else {
            Opcode::Illegal
        }
    }
}

impl vstd::std_specs::convert::FromSpecImpl<u8> for Opcode {
    open spec fn obeys_from_spec() -> bool {
        true
    }

    open spec fn from_spec(b: u8) -> Opcode {
        opcode_of(b)
    }
}

} // verus!
