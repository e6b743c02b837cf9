//! Faults that stop the machine.
use vstd::prelude::*;

verus! {

/// A fault raised by the engine. Every fault is final: the machine state is
/// left exactly as it was before the failing operation.
#[derive(Clone, Copy, Debug, PartialEq, Eq, Structural)]
pub enum Error {
    /// The program does not fit between the load address and the end of memory.
    LoadTooLarge,
    /// The instruction word matches no known opcode.
    UnsupportedOpcode {
        /// The offending instruction word.
        instr: u16,
        /// The program counter at which the word was met.
        pc: usize,
    },
    /// A call was issued with all stack slots taken.
    StackOverflow,
    /// A return was issued with no call pending.
    StackUnderflow,
}

} // verus!
