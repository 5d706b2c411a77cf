//! What the machine reports when an instruction cannot be carried out.

use vstd::prelude::*;

verus! {

/// The kinds of fault.
#[derive(Copy, Clone, Debug, PartialEq, Eq, Structural)]
pub enum ErrorKind {
    /// An operand is of a kind that the instruction does not accept.
    TypeError,
    /// The target of a call is neither a label nor a built-in.
    UnknownSymbol,
    /// The target of a jump is not a label.
    UnknownLabel,
    /// A value was asked of an empty stack.
    StackUnderflow,
    /// A return was asked of an empty call stack.
    CallStackUnderflow,
    /// The heap has no free block that is large enough.
    OutOfMemory,
    /// A region was freed with a wrong size, or outside the arena.
    InvalidFree,
    /// A pointer was used after its region had been freed.
    UseAfterFree,
    /// A value cannot be converted to the kind asked for.
    CastError,
    /// The operands of an assertion are not equal.
    AssertionFailed,
    /// The illegal instruction was met.
    IllegalInstruction,
    /// The host could not read input.
    Io,
}

/// A fault: its kind and message, the instructions around the one that
/// failed, and the stack as it was.
#[derive(Debug)]
pub struct Error {
    pub kind: ErrorKind,
    pub message: String,
    pub stacktrace: Vec<String>,
    pub app_stack: Vec<String>,
}

impl Error {
    /// A fault of kind `kind` with these parts.
    pub fn new(kind: ErrorKind, message: String, stack: Vec<String>, app_stack: Vec<String>) -> (e:
        Error)
        ensures
            e.kind == kind,
            e.message == message,
            e.stacktrace == stack,
            e.app_stack == app_stack,
    {
        Error { kind, message, stacktrace: stack, app_stack }
    }
}

} // verus!
