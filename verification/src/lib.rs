use vstd::prelude::*;

pub mod cpu;
pub mod decode;
pub mod draw;

verus! {

/// Fatal conditions that terminate a run of the machine. None is
/// recoverable: after one of these the machine state is not guaranteed
/// consistent and the run must end.
#[derive(Clone, Copy, PartialEq, Eq, Debug, Structural)]
pub enum VmError {
    /// A fetched word decodes to no recognized operation.
    UnimplementedOpcode,
    /// A call was made with all 16 stack slots in use.
    StackOverflow,
    /// A return was executed with an empty call stack.
    StackUnderflow,
    /// A fetch, sprite read, or register dump/load reached past memory.
    OutOfBoundsAccess,
    /// A program image larger than the space above the reserved region.
    ProgramTooLarge,
}

/// The clock loop's two states. `Halted` is terminal: it is entered only
/// on the all-zero sentinel word, and no further instruction executes.
#[derive(Clone, Copy, PartialEq, Eq, Debug, Structural)]
pub enum Flow {
    Running,
    Halted,
}

} // verus!
