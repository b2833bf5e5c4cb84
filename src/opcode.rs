//! The instruction set.
use vstd::prelude::*;

verus! {

/// One instruction of the machine.
#[derive(Clone, Copy, Debug, PartialEq, Eq, Structural)]
pub enum Opcode {
    /// Set the accumulator to zero.
    Zero,
    /// Push the accumulator onto the stack.
    Push,
    /// Pop the stack into the accumulator; zero when the stack is empty.
    Pop,
    /// Wrapping increment of the accumulator.
    Inc,
    /// Wrapping decrement of the accumulator.
    Dec,
    /// Print the accumulator's low byte as a decimal number.
    OutNum,
    /// Print the accumulator's low byte as a character.
    OutChar,
    /// Bind the accumulator's value to the current program counter.
    Label,
    /// Jump to the label bound to the accumulator when the last comparison held.
    JumpIfZero,
    /// Jump to the label bound to the accumulator when the last comparison failed.
    JumpIfNotZero,
    /// Compare the accumulator with the top of the stack.
    Compare,
    /// Exchange the accumulator with the top of the stack.
    Swap,
    /// Show the whole machine state.
    Debug,
}

} // verus!
