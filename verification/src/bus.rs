//! The memory-bus abstraction and its flat-RAM implementation.
//!
//! A `Bus` is the only way the execution engine touches storage: a byte
//! read and a byte write over the full 16-bit address space. Its contents
//! are modelled as a total map from addresses to bytes, so the engine's
//! contracts can speak about memory independently of the concrete device.

use vstd::prelude::*;
use vstd::pervasive::VecAdditionalExecFns;
use crate::fault::Fault;

verus! {

/// A byte-addressed device over the 16-bit address space.
///
/// Every implementation carries a mathematical view `mem()` of its
/// contents and a validity condition `inv()` that reads and writes
/// preserve; every address is always valid to access, so neither
/// operation has an error channel.
pub trait Bus {
    /// Validity of the device's internal representation.
    spec fn inv(&self) -> bool;

    /// The device's contents as a total map from address to byte.
    spec fn mem(&self) -> Map<u16, u8>;

    /// Read the byte at `addr`.
    fn read(&self, addr: u16) -> (data: u8)
        requires
            self.inv(),
        ensures
            data == self.mem()[addr],
    ;

    /// Replace the byte at `addr` with `data`.
    fn write(&mut self, addr: u16, data: u8)
        requires
            old(self).inv(),
        ensures
            final(self).inv(),
            final(self).mem() == old(self).mem().insert(addr, data),
    ;
}

/// Flat memory: 65536 addressable bytes, zero-initialised at creation.
pub struct Ram {
    cells: Vec<u8>,
}

impl Ram {
    /// Creates a fresh store with every byte zero.
    pub fn new() -> (r: Ram)
        ensures
            r.inv(),
            forall|a: u16| #[trigger] r.mem()[a] == 0u8,
    {
        let mut cells: Vec<u8> = Vec::new();
        let mut i: usize = 0;
        while i < 0x10000
            invariant
                i <= 0x10000,
                cells@.len() == i,
                forall|j: int| 0 <= j < i ==> cells@[j] == 0u8,
            decreases 0x10000 - i,
        {
            cells.push(0u8);
            i = i + 1;
        }
        let r = Ram { cells };
        proof {
            assert forall|a: u16| #[trigger] r.mem()[a] == 0u8 by {
                assert(r.cells@[a as int] == 0u8);
            }
        }
        r
    }

    /// Copies `program` into the store starting at `start_addr`.
    ///
    /// An image that would run past address 0xFFFF is rejected before any
    /// byte of the store changes.
    pub fn load(&mut self, start_addr: u16, program: &[u8]) -> (r: Result<(), Fault>)
        requires
            old(self).inv(),
        ensures
            final(self).inv(),
            r is Ok <==> start_addr + program@.len() <= 0x10000,
            r is Ok ==> forall|a: u16|
                #[trigger] final(self).mem()[a] == (if start_addr <= a && a < start_addr
                    + program@.len() {
                    program@[a - start_addr]
                } else {
                    old(self).mem()[a]
                }),
            r is Err ==> r == Err::<(), Fault>(Fault::OutOfRangeLoad {
                start: start_addr,
                length: program@.len() as usize,
            }) && final(self).mem() == old(self).mem(),
    {
        let start = start_addr as usize;
        if program.len() > 0x10000 - start {
            return Err(Fault::OutOfRangeLoad { start: start_addr, length: program.len() });
        }
        let mut i: usize = 0;
        while i < program.len()
            invariant
                old(self).inv(),
                self.cells@.len() == 0x10000,
                i <= program@.len(),
                start == start_addr as int,
                start + program@.len() <= 0x10000,
                forall|j: int| 0 <= j < 0x10000 && !(start <= j < start + i)
                    ==> self.cells@[j] == old(self).cells@[j],
                forall|j: int| start <= j < start + i ==> self.cells@[j] == program@[j - start],
            decreases program@.len() - i,
        {
            self.cells.set(start + i, program[i]);
            i = i + 1;
        }
        proof {
            assert forall|a: u16|
                #[trigger] self.mem()[a] == (if start_addr <= a && a < start_addr
                    + program@.len() {
                    program@[a - start_addr]
                } else {
                    old(self).mem()[a]
                }) by {
                if start_addr <= a && a < start_addr + program@.len() {
                    assert(self.cells@[a as int] == program@[a - start_addr]);
                } else {
                    assert(self.cells@[a as int] == old(self).cells@[a as int]);
                }
            }
        }
        Ok(())
    }
}

impl Bus for Ram {
    closed spec fn inv(&self) -> bool {
        self.cells@.len() == 0x10000
    }

    closed spec fn mem(&self) -> Map<u16, u8> {
        Map::total(|a: u16| self.cells@[a as int])
    }

    fn read(&self, addr: u16) -> (data: u8) {
        self.cells[addr as usize]
    }

    fn write(&mut self, addr: u16, data: u8) {
        self.cells.set(addr as usize, data);
        proof {
            assert(self.mem() =~= old(self).mem().insert(addr, data));
        }
    }
}

} // verus!
