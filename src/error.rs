use vstd::prelude::*;

verus! {

/// Why a machine could not be built, or why it stopped.
///
/// Every execution fault names the address of the faulting instruction and,
/// where one was fetched, the instruction word itself.
#[derive(Clone, Copy, Debug, PartialEq, Eq, Structural)]
pub enum Chip8Error {
    /// The program does not fit between the load address and the end of memory.
    ProgramTooLarge { len: usize },
    /// The program counter leaves no room for a two-byte fetch.
    PcOutOfRange { pc: usize },
    /// The instruction word decodes to no defined instruction.
    UnimplementedOpcode { instr: u16, pc: usize },
    /// A return was executed with an empty call stack.
    StackUnderflow { instr: u16, pc: usize },
    /// The instruction would read or write memory past its last byte.
    MemoryOutOfRange { instr: u16, pc: usize },
    /// A key instruction names a key number outside the keypad.
    KeyOutOfRange { instr: u16, pc: usize },
}

} // verus!
