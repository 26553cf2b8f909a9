//! A self-contained immediate-mode interpreter for the smallest opcode
//! set: load-immediate, transfer, increment and the halt opcode. The
//! program image is a byte vector executed from address zero; bytes past
//! the image read as zero, as in the flat memory model, so every fetch is
//! defined.

use vstd::prelude::*;
use vstd::wrapping::u16_specs;
use vstd::wrapping::u8_specs;
use crate::cpu::zn_flags;
use crate::fault::Fault;

verus! {

/// The interpreter's register file. Every combination of field values is
/// a valid state.
#[derive(Clone, Copy)]
pub struct CPU {
    /// Accumulator register (A).
    pub register_a: u8,
    /// Index register X.
    pub register_x: u8,
    /// Status register: bit 7 Negative, bit 1 Zero.
    pub status: u8,
    /// Program counter: offset of the next instruction in the image.
    pub program_counter: u16,
}

/// The byte the interpreter fetches at offset `a`: the image byte when
/// `a` falls inside the image, zero beyond it.
pub open spec fn fetch(p: Seq<u8>, a: u16) -> u8 {
    if a < p.len() {
        p[a as int]
    } else {
        0u8
    }
}

/// The outcome of one interpreter step: the next state, a halt (the
/// opcode 0x00 was consumed), or a fault on an unsupported opcode, which
/// carries the state unchanged together with the opcode byte and the
/// program counter at fault.
#[verifier::ext_equal]
pub enum Step {
    Next(CPU),
    Halt(CPU),
    Fault(CPU, u8, u16),
}

/// The effect of executing the instruction at the program counter.
/// Program-counter arithmetic wraps at 16 bits; an unsupported opcode
/// faults before any mutation.
pub open spec fn insn_step(c: CPU, p: Seq<u8>) -> Step {
    let pc = c.program_counter;
    let op = fetch(p, pc);
    if op == 0xA9 {
        // LDA immediate
        let v = fetch(p, u16_specs::wrapping_add(pc, 1));
        Step::Next(
            CPU {
                program_counter: u16_specs::wrapping_add(pc, 2),
                register_a: v,
                status: zn_flags(c.status, v),
                ..c
            },
        )
    } else if op == 0xAA {
        // TAX
        Step::Next(
            CPU {
                program_counter: u16_specs::wrapping_add(pc, 1),
                register_x: c.register_a,
                status: zn_flags(c.status, c.register_a),
                ..c
            },
        )
    } else if op == 0xE8 {
        // INX
        let x = u8_specs::wrapping_add(c.register_x, 1);
        Step::Next(
            CPU {
                program_counter: u16_specs::wrapping_add(pc, 1),
                register_x: x,
                status: zn_flags(c.status, x),
                ..c
            },
        )
    } else if op == 0x00 {
        // The halt opcode: consume the byte and stop.
        Step::Halt(CPU { program_counter: u16_specs::wrapping_add(pc, 1), ..c })
    } else {
        Step::Fault(c, op, pc)
    }
}

/// The interpreter after `n` steps from state `c` over image `p`: the
/// next state while every step so far stepped normally, else the first
/// halt or fault reached, which absorbs all later steps.
pub open spec fn steps(c: CPU, p: Seq<u8>, n: nat) -> Step
    decreases n,
{
    if n == 0 {
        Step::Next(c)
    } else {
        match steps(c, p, (n - 1) as nat) {
            Step::Next(c1) => insn_step(c1, p),
            done => done,
        }
    }
}

/// Whether the interpreter started at `c` over image `p` ever halts or
/// faults.
pub open spec fn halts(c: CPU, p: Seq<u8>) -> bool {
    exists|n: nat| !(#[trigger] steps(c, p, n) is Next)
}

/// Once the interpreter has halted or faulted, taking more steps changes
/// nothing.
pub proof fn lemma_steps_absorb(c: CPU, p: Seq<u8>, n1: nat, n2: nat)
    requires
        n1 <= n2,
        !(steps(c, p, n1) is Next),
    ensures
        steps(c, p, n2) == steps(c, p, n1),
    decreases n2,
{
    if n2 > n1 {
        lemma_steps_absorb(c, p, n1, (n2 - 1) as nat);
    }
}

/// The byte at offset `addr` of the image: the image byte inside the
/// image, zero beyond it.
fn fetch_byte(program: &Vec<u8>, addr: u16) -> (b: u8)
    ensures
        b == fetch(program@, addr),
{
    if (addr as usize) < program.len() {
        program[addr as usize]
    } else {
        0u8
    }
}

impl CPU {
    /// Creates an interpreter CPU with every register and flag zero.
    pub fn new() -> (r: CPU)
        ensures
            r == (CPU {
                register_a: 0u8,
                register_x: 0u8,
                status: 0u8,
                program_counter: 0u16,
            }),
    {
        CPU { register_a: 0, register_x: 0, status: 0, program_counter: 0 }
    }

    /// Updates the Zero and Negative flags from `result` according to the
    /// flag-update rule; all other flags are untouched.
    fn update_zero_and_negative_flags(&mut self, result: u8)
        ensures
            *final(self) == (CPU { status: zn_flags(old(self).status, result), ..*old(self) }),
    {
        if result == 0 {
            self.status = self.status | 0b0000_0010;
        } else {
            self.status = self.status & 0b1111_1101;
        }
        if result & 0b1000_0000 != 0 {
            self.status = self.status | 0b1000_0000;
        } else {
            self.status = self.status & 0b0111_1111;
        }
    }

    /// Executes `program` from offset zero until the halt opcode or an
    /// unsupported-opcode fault.
    ///
    /// The program counter is reset to zero first. The registers left
    /// behind are exactly what some number of interpreter steps from
    /// that state produces — ending in a halt for `Ok`, or in a fault
    /// for `Err`, in which case the returned fault carries the offending
    /// opcode and the program counter at fault.
    ///
    /// The contract assumes the interpreter's trace over the image
    /// reaches the halt opcode or a fault; on a program whose trace
    /// never does, the loop would run on.
    #[verifier::loop_isolation(false)]
    pub fn interpret(&mut self, program: Vec<u8>) -> (r: Result<(), Fault>)
        requires
            halts(CPU { program_counter: 0u16, ..*old(self) }, program@),
        ensures
            ({
                let start = CPU { program_counter: 0u16, ..*old(self) };
                match r {
                    Ok(()) => exists|n: nat|
                        #[trigger] steps(start, program@, n) == Step::Halt(*final(self)),
                    Err(f) => f matches Fault::UnsupportedOpcode { opcode, address }
                        && exists|n: nat|
                        #[trigger] steps(start, program@, n) == Step::Fault(
                            *final(self),
                            opcode,
                            address,
                        ),
                }
            }),
    {
        self.program_counter = 0;
        let ghost c0 = *self;
        let ghost fuel = choose|n: nat| !(#[trigger] steps(c0, program@, n) is Next);
        let ghost mut k: nat = 0;
        loop
            invariant
                steps(c0, program@, k) == Step::Next(*self),
            decreases fuel - k,
        {
            proof {
                if k >= fuel {
                    lemma_steps_absorb(c0, program@, fuel, k);
                }
                assert(k < fuel);
            }
            let opcode = fetch_byte(&program, self.program_counter);
            match opcode {
                0xA9 => {
                    // LDA immediate
                    let param = fetch_byte(&program, self.program_counter.wrapping_add(1));
                    self.program_counter = self.program_counter.wrapping_add(2);
                    self.register_a = param;
                    self.update_zero_and_negative_flags(self.register_a);
                    proof {
                        k = k + 1;
                    }
                },
                0xAA => {
                    // TAX
                    self.program_counter = self.program_counter.wrapping_add(1);
                    self.register_x = self.register_a;
                    self.update_zero_and_negative_flags(self.register_x);
                    proof {
                        k = k + 1;
                    }
                },
                0xE8 => {
                    // INX
                    self.program_counter = self.program_counter.wrapping_add(1);
                    self.register_x = self.register_x.wrapping_add(1);
                    self.update_zero_and_negative_flags(self.register_x);
                    proof {
                        k = k + 1;
                    }
                },
                0x00 => {
                    // The halt opcode: consume the byte and stop.
                    self.program_counter = self.program_counter.wrapping_add(1);
                    proof {
                        assert(steps(c0, program@, k + 1) == Step::Halt(*self));
                    }
                    return Ok(());
                },
                _ => {
                    proof {
                        assert(steps(c0, program@, k + 1) == Step::Fault(
                            *self,
                            opcode,
                            self.program_counter,
                        ));
                    }
                    return Err(Fault::UnsupportedOpcode {
                        opcode,
                        address: self.program_counter,
                    });
                },
            }
        }
    }
}

} // verus!
