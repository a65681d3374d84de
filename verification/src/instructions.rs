//! The instruction set: a closed set of operations with small, fixed-width
//! operands. Strings and numbers never travel inside an instruction; they are
//! reached through the literal pool by id.

use vstd::prelude::*;

verus! {

/// Index of a register inside the window of the running function.
pub type Register = u8;

/// Index into the literal pool of a compiled program.
pub type LiteralId = u16;

/// Index into the function table of a compiled program.
pub type FunctionId = u16;

/// Distance of a jump, counted in instructions.
pub type JumpOffset = u16;

/// One instruction of the machine. Registers are indices into the window of
/// the running function; jumps are relative to the jump itself.
#[allow(inconsistent_fields)]
#[derive(Debug, Clone, Copy, PartialEq, Eq, Structural)]
pub enum Instruction {
    Copy { dest: Register, src: Register },
    LoadFunction { dest: Register, src: FunctionId },
    CallNativeFunction { src: Register, arg_count: u8, return_val: Register },
    CallFunction { src: Register, arg_count: u8, return_val: Register },
    AllocateObject { dest: Register },
    SetObjectField { object: Register, field: Register, value: Register },
    GetObjectField { object: Register, field: Register, return_val: Register },
    AllocateArray { dest: Register },
    SetArrayIndex { array: Register, index: Register, value: Register },
    GetArrayIndex { array: Register, index: Register, return_val: Register },
    LoadLiteral { dest: Register, src: LiteralId },
    PrefixNot { dest: Register, rhs: Register },
    PrefixSub { dest: Register, rhs: Register },
    JumpIfFalse { src: Register, offset: JumpOffset },
    Jump { offset: JumpOffset },
    JumpReverse { offset: JumpOffset },
    Add { dest: Register, lhs: Register, rhs: Register },
    Sub { dest: Register, lhs: Register, rhs: Register },
    Mul { dest: Register, lhs: Register, rhs: Register },
    Div { dest: Register, lhs: Register, rhs: Register },
    Equals { dest: Register, lhs: Register, rhs: Register },
    NotEquals { dest: Register, lhs: Register, rhs: Register },
    GreaterThan { dest: Register, lhs: Register, rhs: Register },
    GreaterThanOrEquals { dest: Register, lhs: Register, rhs: Register },
    LessThan { dest: Register, lhs: Register, rhs: Register },
    LessThanOrEquals { dest: Register, lhs: Register, rhs: Register },
    Return { val: Register },
    FunctionReturn,
    /// A `break` whose loop is not closed yet. The compiler puts it where the
    /// `break` stands and replaces it by the jump behind the loop when it
    /// closes the loop. It stands in no compiled program, and the machine
    /// cannot execute it.
    PendingBreak,
}

impl Instruction {
    /// Whether this is a `break` that waits for its loop to be closed. No jump
    /// is one, whatever its offset.
    pub open spec fn is_pending_break(self) -> bool {
        self == Instruction::PendingBreak
    }

    /// Executable form of [`Instruction::is_pending_break`].
    pub fn pending_break(&self) -> (r: bool)
        ensures
            r == self.is_pending_break(),
    {
        match self {
            Instruction::PendingBreak => true,
            _ => false,
        }
    }
}

} // verus!
