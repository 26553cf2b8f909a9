//! The CPU execution engine: register state, a small-step transition
//! relation over the memory map, and the fetch-decode-execute loop.
//!
//! The meaning of every operation is given once, as spec functions over
//! the register file and a total memory map (`machine_step` and the
//! helpers it builds on). The executable engine is proved to follow that
//! transition relation step by step.

use vstd::prelude::*;
use vstd::wrapping::u16_specs;
use vstd::wrapping::u8_specs;
use crate::bus::Bus;
use crate::fault::Fault;

verus! {

/// Address of the two-byte vector taken when a non-maskable interrupt is
/// serviced.
pub const NMI_VECTOR: u16 = 0xFFFA;

/// Address of the two-byte vector taken when a maskable interrupt is
/// serviced.
pub const IRQ_VECTOR: u16 = 0xFFFE;

/// The central processing unit: registers, flags, stack pointer and the
/// latched interrupt requests. Every combination of field values is a
/// valid machine state.
#[derive(Clone, Copy)]
pub struct CPU {
    /// Accumulator register (A).
    pub register_a: u8,
    /// Index register X.
    pub register_x: u8,
    /// Status register: bit 7 Negative, bit 2 Interrupt-disable, bit 1
    /// Zero, bit 0 Carry. Bit 4 (Break) is only written when the status
    /// byte is pushed.
    pub status: u8,
    /// Program counter: address of the next instruction.
    pub program_counter: u16,
    /// Stack pointer: offset into the fixed page 0x0100-0x01FF. Pushes
    /// decrement it and pops increment it, both with 8-bit wraparound, so
    /// the stack never leaves its page.
    pub stack_pointer: u8,
    /// Latched non-maskable interrupt request, cleared when serviced.
    pub nmi_pending: bool,
    /// Latched maskable interrupt request, cleared when serviced.
    pub irq_pending: bool,
}

/// The absolute address of the stack cell `sp` points at: page 0x0100
/// plus the 8-bit offset.
pub open spec fn stack_addr(sp: u8) -> u16 {
    0x0100u16 | (sp as u16)
}

/// The stack pointer after a push: one lower, wrapping 0x00 to 0xFF.
pub open spec fn sp_down(sp: u8) -> u8 {
    u8_specs::wrapping_sub(sp, 1)
}

/// The stack pointer after a pop: one higher, wrapping 0xFF to 0x00.
pub open spec fn sp_up(sp: u8) -> u8 {
    u8_specs::wrapping_add(sp, 1)
}

/// A 16-bit value combined little-endian from its low and high bytes.
pub open spec fn word(lo: u8, hi: u8) -> u16 {
    ((hi as u16) << 8) | (lo as u16)
}

/// The low byte of a 16-bit value.
pub open spec fn lo_byte(w: u16) -> u8 {
    (w & 0xFF) as u8
}

/// The high byte of a 16-bit value.
pub open spec fn hi_byte(w: u16) -> u8 {
    (w >> 8) as u8
}

/// The flag-update rule: given an 8-bit result, the Zero flag (bit 1) is
/// set exactly when the result is zero and the Negative flag (bit 7)
/// exactly when bit 7 of the result is set; all other flags keep their
/// value.
pub open spec fn zn_flags(status: u8, result: u8) -> u8 {
    let s = if result == 0 {
        status | 0x02
    } else {
        status & 0xFD
    };
    if result & 0x80 != 0 {
        s | 0x80
    } else {
        s & 0x7F
    }
}

/// The branch target: the displacement byte interpreted as a signed 8-bit
/// value, sign-extended and added to the program counter with 16-bit
/// wraparound.
pub open spec fn branch_target(pc: u16, off: u8) -> u16 {
    if off < 0x80 {
        u16_specs::wrapping_add(pc, off as u16)
    } else {
        u16_specs::wrapping_sub(pc, (0x100 - off as u16) as u16)
    }
}

/// The outcome of one machine step: the next state, a halt (the engine
/// met the halt opcode 0x00), or a fault on an unsupported opcode. A
/// fault carries the machine state unchanged together with the offending
/// opcode byte and the program counter at fault: no register or memory
/// mutation for the faulting instruction takes place.
#[verifier::ext_equal]
pub enum Step {
    Next(CPU, Map<u16, u8>),
    Halt(CPU, Map<u16, u8>),
    Fault(CPU, Map<u16, u8>, u8, u16),
}

/// Whether `op` is in the supported opcode set. The set is exhaustive:
/// every other byte faults.
pub open spec fn supported_opcode(op: u8) -> bool {
    ||| op == 0xA9
    ||| op == 0xAD
    ||| op == 0xAA
    ||| op == 0xE8
    ||| op == 0x8D
    ||| op == 0x4C
    ||| op == 0xF0
    ||| op == 0xD0
    ||| op == 0x90
    ||| op == 0xB0
    ||| op == 0x30
    ||| op == 0x10
    ||| op == 0x48
    ||| op == 0x68
    ||| op == 0x08
    ||| op == 0x28
    ||| op == 0x20
    ||| op == 0x60
    ||| op == 0x40
    ||| op == 0x00
}

/// The machine state after pushing one byte: the byte lands at the cell
/// the stack pointer designates, then the pointer moves down.
pub open spec fn spec_push_byte(c: CPU, m: Map<u16, u8>, v: u8) -> (CPU, Map<u16, u8>) {
    (
        CPU { stack_pointer: sp_down(c.stack_pointer), ..c },
        m.insert(stack_addr(c.stack_pointer), v),
    )
}

/// The machine state after popping one byte: the pointer moves up, then
/// the byte is read from the cell it designates.
pub open spec fn spec_pop_byte(c: CPU, m: Map<u16, u8>) -> (CPU, u8) {
    let sp = sp_up(c.stack_pointer);
    (CPU { stack_pointer: sp, ..c }, m[stack_addr(sp)])
}

/// The machine state after pushing a 16-bit value: high byte first, then
/// low byte.
pub open spec fn spec_push_word(c: CPU, m: Map<u16, u8>, w: u16) -> (CPU, Map<u16, u8>) {
    let (c1, m1) = spec_push_byte(c, m, hi_byte(w));
    spec_push_byte(c1, m1, lo_byte(w))
}

/// The machine state after popping a 16-bit value: low byte first, then
/// high byte, recombined little-endian.
pub open spec fn spec_pop_word(c: CPU, m: Map<u16, u8>) -> (CPU, u16) {
    let (c1, lo) = spec_pop_byte(c, m);
    let (c2, hi) = spec_pop_byte(c1, m);
    (c2, word(lo, hi))
}

/// The machine state after servicing an interrupt through `vector`: the
/// program counter is pushed as a word, then the status byte with the
/// Break bit cleared, the Interrupt-disable flag is set, and the program
/// counter is loaded little-endian from the two bytes at the vector.
pub open spec fn spec_interrupt(c: CPU, m: Map<u16, u8>, vector: u16) -> (CPU, Map<u16, u8>) {
    let (c1, m1) = spec_push_word(c, m, c.program_counter);
    let (c2, m2) = spec_push_byte(c1, m1, c1.status & 0xEF);
    let pc = word(m2[vector], m2[(vector + 1) as u16]);
    (CPU { status: c2.status | 0x04, program_counter: pc, ..c2 }, m2)
}

/// The effect of executing the instruction at the program counter, with
/// no interrupt pending. Program-counter arithmetic wraps at 16 bits;
/// the only fault is an unsupported opcode, detected before any
/// mutation.
pub open spec fn insn_step(c: CPU, m: Map<u16, u8>) -> Step {
    let pc = c.program_counter;
    let op = m[pc];
    if op == 0xA9 {
        // LDA immediate
        let v = m[u16_specs::wrapping_add(pc, 1)];
        Step::Next(
            CPU {
                program_counter: u16_specs::wrapping_add(pc, 2),
                register_a: v,
                status: zn_flags(c.status, v),
                ..c
            },
            m,
        )
    } else if op == 0xAD {
        // LDA absolute
        let addr = word(m[u16_specs::wrapping_add(pc, 1)], m[u16_specs::wrapping_add(pc, 2)]);
        let v = m[addr];
        Step::Next(
            CPU {
                program_counter: u16_specs::wrapping_add(pc, 3),
                register_a: v,
                status: zn_flags(c.status, v),
                ..c
            },
            m,
        )
    } else if op == 0xAA {
        // TAX
        Step::Next(
            CPU {
                program_counter: u16_specs::wrapping_add(pc, 1),
                register_x: c.register_a,
                status: zn_flags(c.status, c.register_a),
                ..c
            },
            m,
        )
    } else if op == 0xE8 {
        // INX
        let x = u8_specs::wrapping_add(c.register_x, 1);
        Step::Next(
            CPU {
                program_counter: u16_specs::wrapping_add(pc, 1),
                register_x: x,
                status: zn_flags(c.status, x),
                ..c
            },
            m,
        )
    } else if op == 0x8D {
        // STA absolute
        let addr = word(m[u16_specs::wrapping_add(pc, 1)], m[u16_specs::wrapping_add(pc, 2)]);
        Step::Next(
            CPU { program_counter: u16_specs::wrapping_add(pc, 3), ..c },
            m.insert(addr, c.register_a),
        )
    } else if op == 0x4C {
        // JMP absolute
        let addr = word(m[u16_specs::wrapping_add(pc, 1)], m[u16_specs::wrapping_add(pc, 2)]);
        Step::Next(CPU { program_counter: addr, ..c }, m)
    } else if op == 0xF0 {
        // BEQ: branch when the Zero flag is set
        Step::Next(CPU { program_counter: branch_pc(c, m, c.status & 0x02 != 0), ..c }, m)
    } else if op == 0xD0 {
        // BNE: branch when the Zero flag is clear
        Step::Next(CPU { program_counter: branch_pc(c, m, c.status & 0x02 == 0), ..c }, m)
    } else if op == 0x90 {
        // BCC: branch when the Carry flag is clear
        Step::Next(CPU { program_counter: branch_pc(c, m, c.status & 0x01 == 0), ..c }, m)
    } else if op == 0xB0 {
        // BCS: branch when the Carry flag is set
        Step::Next(CPU { program_counter: branch_pc(c, m, c.status & 0x01 != 0), ..c }, m)
    } else if op == 0x30 {
        // BMI: branch when the Negative flag is set
        Step::Next(CPU { program_counter: branch_pc(c, m, c.status & 0x80 != 0), ..c }, m)
    } else if op == 0x10 {
        // BPL: branch when the Negative flag is clear
        Step::Next(CPU { program_counter: branch_pc(c, m, c.status & 0x80 == 0), ..c }, m)
    } else if op == 0x48 {
        // PHA
        let (c1, m1) = spec_push_byte(c, m, c.register_a);
        Step::Next(CPU { program_counter: u16_specs::wrapping_add(pc, 1), ..c1 }, m1)
    } else if op == 0x68 {
        // PLA
        let (c1, v) = spec_pop_byte(c, m);
        Step::Next(
            CPU {
                program_counter: u16_specs::wrapping_add(pc, 1),
                register_a: v,
                status: zn_flags(c1.status, v),
                ..c1
            },
            m,
        )
    } else if op == 0x08 {
        // PHP: the pushed copy has the Break and unused bits forced set
        let (c1, m1) = spec_push_byte(c, m, c.status | 0x30);
        Step::Next(CPU { program_counter: u16_specs::wrapping_add(pc, 1), ..c1 }, m1)
    } else if op == 0x28 {
        // PLP: the popped byte replaces the status verbatim
        let (c1, v) = spec_pop_byte(c, m);
        Step::Next(
            CPU { program_counter: u16_specs::wrapping_add(pc, 1), status: v, ..c1 },
            m,
        )
    } else if op == 0x20 {
        // JSR: push the address of the instruction's last byte, jump
        let addr = word(m[u16_specs::wrapping_add(pc, 1)], m[u16_specs::wrapping_add(pc, 2)]);
        let (c1, m1) = spec_push_word(c, m, u16_specs::wrapping_add(pc, 2));
        Step::Next(CPU { program_counter: addr, ..c1 }, m1)
    } else if op == 0x60 {
        // RTS: pop the return address and resume one past it
        let (c1, w) = spec_pop_word(c, m);
        Step::Next(CPU { program_counter: u16_specs::wrapping_add(w, 1), ..c1 }, m)
    } else if op == 0x40 {
        // RTI: pop the status byte, then the program counter verbatim
        let (c1, s) = spec_pop_byte(c, m);
        let (c2, w) = spec_pop_word(c1, m);
        Step::Next(CPU { status: s, program_counter: w, ..c2 }, m)
    } else if op == 0x00 {
        // The 0x00 opcode is the engine's explicit halt signal: it
        // consumes its byte and ends the run loop.
        Step::Halt(CPU { program_counter: u16_specs::wrapping_add(pc, 1), ..c }, m)
    } else {
        Step::Fault(c, m, op, pc)
    }
}

/// The program counter after a conditional branch instruction: past the
/// two instruction bytes, then displaced by the signed operand byte when
/// `taken` holds.
pub open spec fn branch_pc(c: CPU, m: Map<u16, u8>, taken: bool) -> u16 {
    let off = m[u16_specs::wrapping_add(c.program_counter, 1)];
    let pc2 = u16_specs::wrapping_add(c.program_counter, 2);
    if taken {
        branch_target(pc2, off)
    } else {
        pc2
    }
}

/// One step of the machine: a pending non-maskable interrupt is serviced
/// first, then a pending maskable one, else the instruction at the
/// program counter executes. A maskable request is serviced without
/// consulting the Interrupt-disable flag: masking is left to a later
/// refinement.
pub open spec fn machine_step(c: CPU, m: Map<u16, u8>) -> Step {
    if c.nmi_pending {
        let (c1, m1) = spec_interrupt(CPU { nmi_pending: false, ..c }, m, NMI_VECTOR);
        Step::Next(c1, m1)
    } else if c.irq_pending {
        let (c1, m1) = spec_interrupt(CPU { irq_pending: false, ..c }, m, IRQ_VECTOR);
        Step::Next(c1, m1)
    } else {
        insn_step(c, m)
    }
}

/// The machine after `n` steps from state `(c, m)`: the next state while
/// every step so far stepped normally, else the first halt or fault
/// reached, which absorbs all later steps.
pub open spec fn steps(c: CPU, m: Map<u16, u8>, n: nat) -> Step
    decreases n,
{
    if n == 0 {
        Step::Next(c, m)
    } else {
        match steps(c, m, (n - 1) as nat) {
            Step::Next(c1, m1) => machine_step(c1, m1),
            done => done,
        }
    }
}

/// Whether the machine started at `(c, m)` ever halts or faults.
pub open spec fn halts(c: CPU, m: Map<u16, u8>) -> bool {
    exists|n: nat| !(#[trigger] steps(c, m, n) is Next)
}

/// Once the machine has halted or faulted, taking more steps changes
/// nothing.
pub proof fn lemma_steps_absorb(c: CPU, m: Map<u16, u8>, n1: nat, n2: nat)
    requires
        n1 <= n2,
        !(steps(c, m, n1) is Next),
    ensures
        steps(c, m, n2) == steps(c, m, n1),
    decreases n2,
{
    if n2 > n1 {
        lemma_steps_absorb(c, m, n1, (n2 - 1) as nat);
    }
}

impl CPU {
    /// Creates a CPU in its reset state: registers and flags clear, the
    /// program counter at zero, the stack pointer at 0xFD, and no
    /// interrupt request latched.
    pub fn new() -> (r: CPU)
        ensures
            r == (CPU {
                register_a: 0u8,
                register_x: 0u8,
                status: 0u8,
                program_counter: 0u16,
                stack_pointer: 0xFDu8,
                nmi_pending: false,
                irq_pending: false,
            }),
    {
        CPU {
            register_a: 0,
            register_x: 0,
            status: 0,
            program_counter: 0,
            stack_pointer: 0xFD,
            nmi_pending: false,
            irq_pending: false,
        }
    }

    /// Latches a maskable interrupt request for the next loop iteration.
    pub fn trigger_irq(&mut self)
        ensures
            *final(self) == (CPU { irq_pending: true, ..*old(self) }),
    {
        self.irq_pending = true;
    }

    /// Latches a non-maskable interrupt request for the next loop
    /// iteration.
    pub fn trigger_nmi(&mut self)
        ensures
            *final(self) == (CPU { nmi_pending: true, ..*old(self) }),
    {
        self.nmi_pending = true;
    }

    /// Services an interrupt through the two-byte vector at `vector`:
    /// pushes the program counter and the status byte with the Break bit
    /// cleared, sets the Interrupt-disable flag, and loads the program
    /// counter little-endian from the vector.
    fn handle_interrupt<B: Bus>(&mut self, bus: &mut B, vector: u16)
        requires
            old(bus).inv(),
            vector < 0xFFFF,
        ensures
            final(bus).inv(),
            (*final(self), final(bus).mem()) == spec_interrupt(
                *old(self),
                old(bus).mem(),
                vector,
            ),
    {
        let pc = self.program_counter;
        self.push_word(bus, pc);
        let flags = self.status & 0b1110_1111;
        self.push_byte(bus, flags);
        self.status = self.status | 0b0000_0100;
        let lo = bus.read(vector);
        let hi = bus.read(vector + 1);
        self.program_counter = ((hi as u16) << 8) | (lo as u16);
    }

    /// The absolute memory address of the stack cell the stack pointer
    /// designates.
    fn stack_address(&self) -> (addr: u16)
        ensures
            addr == stack_addr(self.stack_pointer),
    {
        0x0100u16 | (self.stack_pointer as u16)
    }

    /// Pushes a byte onto the stack: writes at the current stack address,
    /// then moves the stack pointer down with wraparound.
    pub fn push_byte<B: Bus>(&mut self, bus: &mut B, value: u8)
        requires
            old(bus).inv(),
        ensures
            final(bus).inv(),
            (*final(self), final(bus).mem()) == spec_push_byte(
                *old(self),
                old(bus).mem(),
                value,
            ),
    {
        let addr = self.stack_address();
        bus.write(addr, value);
        self.stack_pointer = self.stack_pointer.wrapping_sub(1);
    }

    /// Pops a byte from the stack: moves the stack pointer up with
    /// wraparound, then reads at the new stack address.
    pub fn pop_byte<B: Bus>(&mut self, bus: &mut B) -> (value: u8)
        requires
            old(bus).inv(),
        ensures
            final(bus).inv(),
            *final(bus) == *old(bus),
            (*final(self), value) == spec_pop_byte(*old(self), old(bus).mem()),
    {
        self.stack_pointer = self.stack_pointer.wrapping_add(1);
        let addr = self.stack_address();
        bus.read(addr)
    }

    /// Pushes a 16-bit value: high byte first, then low byte, so that a
    /// matching pop recombines it exactly.
    pub fn push_word<B: Bus>(&mut self, bus: &mut B, value: u16)
        requires
            old(bus).inv(),
        ensures
            final(bus).inv(),
            (*final(self), final(bus).mem()) == spec_push_word(
                *old(self),
                old(bus).mem(),
                value,
            ),
    {
        let high = (value >> 8) as u8;
        let low = (value & 0xFF) as u8;
        self.push_byte(bus, high);
        self.push_byte(bus, low);
    }

    /// Pops a 16-bit value: low byte first, then high byte, recombined
    /// little-endian.
    pub fn pop_word<B: Bus>(&mut self, bus: &mut B) -> (value: u16)
        requires
            old(bus).inv(),
        ensures
            final(bus).inv(),
            *final(bus) == *old(bus),
            (*final(self), value) == spec_pop_word(*old(self), old(bus).mem()),
    {
        let low = self.pop_byte(bus);
        let high = self.pop_byte(bus);
        ((high as u16) << 8) | (low as u16)
    }

    /// Runs the fetch-decode-execute loop until the halt opcode 0x00 or
    /// an unsupported-opcode fault.
    ///
    /// Each iteration performs exactly one step of the small-step
    /// machine: a pending interrupt is serviced, or the instruction at
    /// the program counter executes. The registers and memory left
    /// behind are exactly what some number of machine steps from the
    /// initial state produces — ending in a halt for `Ok`, or in a fault
    /// for `Err`, in which case the returned fault carries the offending
    /// opcode and the program counter at fault and the state is exactly
    /// as the faulting step found it.
    #[verifier::loop_isolation(false)]
    pub fn run<B: Bus>(&mut self, bus: &mut B) -> (r: Result<(), Fault>)
        requires
            old(bus).inv(),
            halts(*old(self), old(bus).mem()),
        ensures
            final(bus).inv(),
            r is Ok ==> exists|n: nat|
                #[trigger] steps(*old(self), old(bus).mem(), n) == Step::Halt(
                    *final(self),
                    final(bus).mem(),
                ),
            r matches Err(f) ==> f matches Fault::UnsupportedOpcode { opcode, address }
                && exists|n: nat|
                #[trigger] steps(*old(self), old(bus).mem(), n) == Step::Fault(
                    *final(self),
                    final(bus).mem(),
                    opcode,
                    address,
                ),
    {
        let ghost c0 = *self;
        let ghost m0 = bus.mem();
        let ghost fuel = choose|n: nat| !(#[trigger] steps(c0, m0, n) is Next);
        let ghost mut k: nat = 0;
        loop
            invariant
                bus.inv(),
                steps(c0, m0, k) == Step::Next(*self, bus.mem()),
                !(steps(c0, m0, fuel) is Next),
            decreases fuel - k,
        {
            proof {
                if k >= fuel {
                    lemma_steps_absorb(c0, m0, fuel, k);
                }
                assert(k < fuel);
            }
            if self.nmi_pending {
                self.nmi_pending = false;
                self.handle_interrupt(bus, NMI_VECTOR);
                proof {
                    k = k + 1;
                }
            } else if self.irq_pending {
                self.irq_pending = false;
                self.handle_interrupt(bus, IRQ_VECTOR);
                proof {
                    k = k + 1;
                }
            } else {
                let opcode = bus.read(self.program_counter);
                match opcode {
                    0xA9 => {
                        // LDA immediate
                        let value = bus.read(self.program_counter.wrapping_add(1));
                        self.program_counter = self.program_counter.wrapping_add(2);
                        self.register_a = value;
                        self.update_zero_and_negative_flags(self.register_a);
                        proof {
                            k = k + 1;
                        }
                    },
                    0xAD => {
                        // LDA absolute
                        let lo = bus.read(self.program_counter.wrapping_add(1));
                        let hi = bus.read(self.program_counter.wrapping_add(2));
                        let addr = ((hi as u16) << 8) | (lo as u16);
                        let value = bus.read(addr);
                        self.program_counter = self.program_counter.wrapping_add(3);
                        self.register_a = value;
                        self.update_zero_and_negative_flags(self.register_a);
                        proof {
                            k = k + 1;
                        }
                    },
                    0xAA => {
                        // TAX
                        self.program_counter = self.program_counter.wrapping_add(1);
                        self.register_x = self.register_a;
                        self.update_zero_and_negative_flags(self.register_x);
                        proof {
                            k = k + 1;
                        }
                    },
                    0xE8 => {
                        // INX
                        self.program_counter = self.program_counter.wrapping_add(1);
                        self.register_x = self.register_x.wrapping_add(1);
                        self.update_zero_and_negative_flags(self.register_x);
                        proof {
                            k = k + 1;
                        }
                    },
                    0x8D => {
                        // STA absolute
                        let lo = bus.read(self.program_counter.wrapping_add(1));
                        let hi = bus.read(self.program_counter.wrapping_add(2));
                        let addr = ((hi as u16) << 8) | (lo as u16);
                        bus.write(addr, self.register_a);
                        self.program_counter = self.program_counter.wrapping_add(3);
                        proof {
                            k = k + 1;
                        }
                    },
                    0x4C => {
                        // JMP absolute
                        let lo = bus.read(self.program_counter.wrapping_add(1));
                        let hi = bus.read(self.program_counter.wrapping_add(2));
                        self.program_counter = ((hi as u16) << 8) | (lo as u16);
                        proof {
                            k = k + 1;
                        }
                    },
                    0xF0 => {
                        // BEQ
                        let offset = bus.read(self.program_counter.wrapping_add(1));
                        self.program_counter = self.program_counter.wrapping_add(2);
                        if self.status & 0b0000_0010 != 0 {
                            self.branch(offset);
                        }
                        proof {
                            k = k + 1;
                        }
                    },
                    0xD0 => {
                        // BNE
                        let offset = bus.read(self.program_counter.wrapping_add(1));
                        self.program_counter = self.program_counter.wrapping_add(2);
                        if self.status & 0b0000_0010 == 0 {
                            self.branch(offset);
                        }
                        proof {
                            k = k + 1;
                        }
                    },
                    0x90 => {
                        // BCC
                        let offset = bus.read(self.program_counter.wrapping_add(1));
                        self.program_counter = self.program_counter.wrapping_add(2);
                        if self.status & 0b0000_0001 == 0 {
                            self.branch(offset);
                        }
                        proof {
                            k = k + 1;
                        }
                    },
                    0xB0 => {
                        // BCS
                        let offset = bus.read(self.program_counter.wrapping_add(1));
                        self.program_counter = self.program_counter.wrapping_add(2);
                        if self.status & 0b0000_0001 != 0 {
                            self.branch(offset);
                        }
                        proof {
                            k = k + 1;
                        }
                    },
                    0x30 => {
                        // BMI
                        let offset = bus.read(self.program_counter.wrapping_add(1));
                        self.program_counter = self.program_counter.wrapping_add(2);
                        if self.status & 0b1000_0000 != 0 {
                            self.branch(offset);
                        }
                        proof {
                            k = k + 1;
                        }
                    },
                    0x10 => {
                        // BPL
                        let offset = bus.read(self.program_counter.wrapping_add(1));
                        self.program_counter = self.program_counter.wrapping_add(2);
                        if self.status & 0b1000_0000 == 0 {
                            self.branch(offset);
                        }
                        proof {
                            k = k + 1;
                        }
                    },
                    0x48 => {
                        // PHA
                        self.push_byte(bus, self.register_a);
                        self.program_counter = self.program_counter.wrapping_add(1);
                        proof {
                            k = k + 1;
                        }
                    },
                    0x68 => {
                        // PLA
                        self.register_a = self.pop_byte(bus);
                        self.update_zero_and_negative_flags(self.register_a);
                        self.program_counter = self.program_counter.wrapping_add(1);
                        proof {
                            k = k + 1;
                        }
                    },
                    0x08 => {
                        // PHP
                        self.push_byte(bus, self.status | 0b0011_0000);
                        self.program_counter = self.program_counter.wrapping_add(1);
                        proof {
                            k = k + 1;
                        }
                    },
                    0x28 => {
                        // PLP
                        self.status = self.pop_byte(bus);
                        self.program_counter = self.program_counter.wrapping_add(1);
                        proof {
                            k = k + 1;
                        }
                    },
                    0x20 => {
                        // JSR
                        let lo = bus.read(self.program_counter.wrapping_add(1));
                        let hi = bus.read(self.program_counter.wrapping_add(2));
                        let addr = ((hi as u16) << 8) | (lo as u16);
                        let ret = self.program_counter.wrapping_add(2);
                        self.push_word(bus, ret);
                        self.program_counter = addr;
                        proof {
                            k = k + 1;
                        }
                    },
                    0x60 => {
                        // RTS
                        let ret = self.pop_word(bus);
                        self.program_counter = ret.wrapping_add(1);
                        proof {
                            k = k + 1;
                        }
                    },
                    0x40 => {
                        // RTI
                        self.status = self.pop_byte(bus);
                        self.program_counter = self.pop_word(bus);
                        proof {
                            k = k + 1;
                        }
                    },
                    0x00 => {
                        // The explicit halt signal: consume the byte and
                        // end the loop.
                        self.program_counter = self.program_counter.wrapping_add(1);
                        proof {
                            assert(steps(c0, m0, k + 1) == Step::Halt(*self, bus.mem()));
                        }
                        return Ok(());
                    },
                    _ => {
                        proof {
                            assert(steps(c0, m0, k + 1) == Step::Fault(
                                *self,
                                bus.mem(),
                                opcode,
                                self.program_counter,
                            ));
                        }
                        return Err(Fault::UnsupportedOpcode {
                            opcode,
                            address: self.program_counter,
                        });
                    },
                }
            }
        }
    }

    /// Updates the Zero and Negative flags from `result` according to the
    /// flag-update rule; all other flags are untouched.
    fn update_zero_and_negative_flags(&mut self, result: u8)
        ensures
            *final(self) == (CPU { status: zn_flags(old(self).status, result), ..*old(self) }),
    {
        if result == 0 {
            self.status = self.status | 0b0000_0010;
        } else {
            self.status = self.status & 0b1111_1101;
        }
        if result & 0b1000_0000 != 0 {
            self.status = self.status | 0b1000_0000;
        } else {
            self.status = self.status & 0b0111_1111;
        }
    }

    /// Adjusts the program counter by a branch displacement byte,
    /// interpreted as a signed 8-bit offset with 16-bit wraparound.
    fn branch(&mut self, offset: u8)
        ensures
            *final(self) == (CPU {
                program_counter: branch_target(old(self).program_counter, offset),
                ..*old(self)
            }),
    {
        if offset < 0x80 {
            self.program_counter = self.program_counter.wrapping_add(offset as u16);
        } else {
            self.program_counter = self.program_counter.wrapping_sub(0x100 - (offset as u16));
        }
    }
}

} // verus!
