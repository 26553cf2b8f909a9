//! Fatal and recoverable faults surfaced by the emulator.

use vstd::prelude::*;

verus! {

/// A structured fault: either the decoder met a byte outside the supported
/// opcode set, or a program image would not fit in the 16-bit address space.
/// Faults are returned to the caller, never swallowed and never a panic.
#[derive(Debug, Clone, Copy, PartialEq, Eq, Structural)]
pub enum Fault {
    /// Decoding encountered an unsupported opcode byte. `address` is the
    /// program counter at the moment of the fault; no register or memory
    /// mutation for the faulting instruction has taken place.
    UnsupportedOpcode { opcode: u8, address: u16 },
    /// A program image of `length` bytes starting at `start` would run past
    /// address 0xFFFF; the store is left untouched.
    OutOfRangeLoad { start: u16, length: usize },
}

} // verus!
