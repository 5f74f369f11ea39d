//! Failures of the disassembly pipeline. Format violations are fatal: once an
//! instruction's length is unknown the rest of the stream cannot be walked.

use vstd::prelude::*;

verus! {

/// Why a disassembly run, or one of its steps, was aborted.
#[derive(Debug, Clone, Copy, PartialEq, Eq, Structural)]
pub enum DisasmError {
    /// A fixed-width read reached past the end of the scenario buffer.
    OutOfBounds { offset: usize },
    /// An opcode byte outside the known set was met during the discovery
    /// pass, where the instruction's length cannot be guessed.
    UnknownOpcode { opcode: u8 },
    /// A syscall id with no entry in the scenario's syscall table.
    UnknownSyscall { id: u16 },
    /// A call target or init-stack address with no recorded routine.
    RoutineNotFound { address: u32 },
    /// An opcode that needs an active routine was met outside of one.
    NoActiveRoutine,
    /// A pop was attempted with an empty operand area.
    StackUnderflow,
    /// A stack slot reference that is neither a declared local nor an
    /// argument slot (offset -1 is reserved for the frame pointer).
    InvalidStackIndex { index: i8 },
    /// An argument-slot index that is not `<= -2`.
    InvalidArgIndex { index: i8 },
    /// A local-slot index that is negative.
    InvalidLocalIndex { index: i8 },
    /// A scenario whose routine-stream end lies outside the buffer, or whose
    /// buffer is too large for 32-bit addressing.
    InvalidStreamEnd { offset: u32 },
}

} // verus!
