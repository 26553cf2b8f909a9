//! Instruction-level emulator for a small subset of the 6502 CPU.
//!
//! The crate is organised around a mathematical small-step machine:
//! `cpu` defines the register file and the transition relation over a
//! byte-addressed memory, `bus` supplies the memory abstraction that the
//! execution engine reads and writes through, and `interp` holds a
//! self-contained immediate-mode interpreter for the smallest opcode set.
//! The laws that hold of every machine state — flag discipline, stack
//! round trips, subroutine return, fault discipline — are stated and
//! proved in `laws`.

pub mod bus;
pub mod cpu;
pub mod fault;
pub mod interp;
pub mod laws;

pub use bus::Bus;
pub use bus::Ram;
pub use cpu::CPU;
pub use fault::Fault;
