//! The faults that decoding, assembling and running can raise.

use vstd::prelude::*;

use crate::Pointer;

verus! {

/// What went wrong.
#[derive(Debug, Clone, PartialEq, Eq)]
pub enum BytecodeErrorKind {
    /// The opcode takes a value operand and the instruction has none.
    ValueNotProvided,
    /// A control-transfer opcode has no pointer operand.
    PointerNotProvided,
    /// A value was popped from an empty stack.
    StackIsEmpty,
    /// The byte is not the identifier of any opcode.
    InvalidOpcode(u8),
    /// The word is not the mnemonic of any opcode.
    InvalidOpcode2(String),
    /// `Return` ran with no call to return from.
    CallStackIsEmpty,
    /// Nothing was ever stored under the key.
    StoreIndexNotFound(Pointer),
    /// A program cannot be made of zero instructions.
    ProgramIsEmpty,
    /// `Div` or `Mod` ran with a divisor of zero.
    DivisionByZero,
    /// The byte stream ends inside the operand of its last instruction.
    TruncatedOperand,
    /// The word is not a number that fits the operand it stands for.
    InvalidOperand(String),
    /// The opcode has no identifier, so no byte stream can hold it.
    OpcodeNotEncodable,
}

/// A fault and, where one was active, the pointer of the instruction that
/// raised it.
pub type BytecodeError = (BytecodeErrorKind, Option<Pointer>);

} // verus!
