//! Laws of the execution engine, stated over the small-step machine and
//! proved once for all states: the flag-update rule, the stack round
//! trips and wraparound, the increment wraparound, the subroutine round
//! trip, and the fault discipline for unsupported opcodes.

use vstd::prelude::*;
use vstd::wrapping::u16_specs;
use crate::cpu::CPU;
use crate::cpu::Step;
use crate::cpu::branch_target;
use crate::cpu::hi_byte;
use crate::cpu::lo_byte;
use crate::cpu::machine_step;
use crate::cpu::sp_down;
use crate::cpu::spec_pop_byte;
use crate::cpu::spec_pop_word;
use crate::cpu::spec_push_byte;
use crate::cpu::spec_push_word;
use crate::cpu::stack_addr;
use crate::cpu::supported_opcode;
use crate::cpu::word;
use crate::cpu::zn_flags;

verus! {

/// The flag-update rule holds for every status byte and every 8-bit
/// result, independently of which operation produced the result: the
/// Zero flag (bit 1) is set exactly when the result is zero, the
/// Negative flag (bit 7) exactly when bit 7 of the result is set, and
/// every other flag bit keeps its value.
pub proof fn lemma_flag_update_rule(status: u8, result: u8)
    ensures
        zn_flags(status, result) & 0x02 != 0 <==> result == 0,
        zn_flags(status, result) & 0x80 != 0 <==> result & 0x80 != 0,
        zn_flags(status, result) & 0x7D == status & 0x7D,
{
    assert((zn_flags(status, result) & 0x02 != 0 <==> result == 0) && (zn_flags(
        status,
        result,
    ) & 0x80 != 0 <==> result & 0x80 != 0) && (zn_flags(status, result) & 0x7D == status
        & 0x7D)) by (bit_vector);
}

/// Two stack cells designated by different stack-pointer values are
/// different memory addresses.
pub proof fn lemma_stack_addr_injective(a: u8, b: u8)
    requires
        a != b,
    ensures
        stack_addr(a) != stack_addr(b),
{
    assert((0x0100u16 | (a as u16)) != (0x0100u16 | (b as u16))) by (bit_vector)
        requires
            a != b,
    ;
}

/// Splitting a 16-bit value into its bytes and recombining them
/// little-endian gives the value back.
pub proof fn lemma_word_bytes(w: u16)
    ensures
        word(lo_byte(w), hi_byte(w)) == w,
{
    assert(word(lo_byte(w), hi_byte(w)) == w) by (bit_vector);
}

/// Pushing a byte and popping it returns the pushed value and restores
/// the whole register file, the stack pointer included.
pub proof fn lemma_push_pop_byte_round_trip(c: CPU, m: Map<u16, u8>, v: u8)
    ensures
        ({
            let (c1, m1) = spec_push_byte(c, m, v);
            let (c2, r) = spec_pop_byte(c1, m1);
            r == v && c2 == c
        }),
{
}

/// Pushing a 16-bit value and popping it returns the pushed value
/// exactly and restores the whole register file, the stack pointer
/// included.
pub proof fn lemma_push_pop_word_round_trip(c: CPU, m: Map<u16, u8>, w: u16)
    ensures
        ({
            let (c1, m1) = spec_push_word(c, m, w);
            let (c2, r) = spec_pop_word(c1, m1);
            r == w && c2 == c
        }),
{
    let sp = c.stack_pointer;
    lemma_stack_addr_injective(sp, sp_down(sp));
    lemma_word_bytes(w);
}

/// The stack pointer wraps instead of overflowing: a push at 0x00 moves
/// it to 0xFF, and a pop at 0xFF moves it to 0x00.
pub proof fn lemma_stack_pointer_wraps(c: CPU, m: Map<u16, u8>, v: u8)
    ensures
        c.stack_pointer == 0x00 ==> spec_push_byte(c, m, v).0.stack_pointer == 0xFF,
        c.stack_pointer == 0xFF ==> spec_pop_byte(c, m).0.stack_pointer == 0x00,
{
}

/// The increment instruction wraps the X register at 8 bits, and the
/// flag-update rule applies to the new value: incrementing 0xFF gives
/// 0x00 with the Zero flag set, incrementing 0x7F gives 0x80 with the
/// Negative flag set.
pub proof fn lemma_inx_wraparound(c: CPU, m: Map<u16, u8>)
    requires
        !c.nmi_pending,
        !c.irq_pending,
        m[c.program_counter] == 0xE8,
    ensures
        machine_step(c, m) matches Step::Next(c1, m1) && m1 == m && c1.register_x == (
        if c.register_x == 0xFF {
            0u8
        } else {
            (c.register_x + 1) as u8
        }) && (c.register_x == 0xFF ==> c1.status & 0x02 != 0) && (c.register_x == 0x7F
            ==> c1.status & 0x80 != 0),
{
    let x1 = if c.register_x == 0xFF {
        0u8
    } else {
        (c.register_x + 1) as u8
    };
    lemma_flag_update_rule(c.status, x1);
    assert(0x80u8 & 0x80 != 0) by (bit_vector);
}

/// A jump to subroutine followed by a return from subroutine at the
/// target resumes at the instruction immediately after the three-byte
/// jump, with every register, the stack pointer included, restored. The
/// two stack cells the jump writes must not overlap the return opcode's
/// own cell.
pub proof fn lemma_jsr_rts_round_trip(c: CPU, m: Map<u16, u8>)
    requires
        !c.nmi_pending,
        !c.irq_pending,
        m[c.program_counter] == 0x20,
        ({
            let target = word(
                m[u16_specs::wrapping_add(c.program_counter, 1)],
                m[u16_specs::wrapping_add(c.program_counter, 2)],
            );
            &&& m[target] == 0x60
            &&& target != stack_addr(c.stack_pointer)
            &&& target != stack_addr(sp_down(c.stack_pointer))
        }),
    ensures
        machine_step(c, m) matches Step::Next(c1, m1) && machine_step(c1, m1) matches Step::Next(
            c2,
            m2,
        ) && m2 == m1 && c2.program_counter == u16_specs::wrapping_add(c.program_counter, 3)
            && c2.stack_pointer == c.stack_pointer && c2.register_a == c.register_a
            && c2.register_x == c.register_x && c2.status == c.status,
{
    let pc = c.program_counter;
    let ret = u16_specs::wrapping_add(pc, 2);
    lemma_stack_addr_injective(c.stack_pointer, sp_down(c.stack_pointer));
    lemma_word_bytes(ret);
}

/// Decoding any opcode outside the supported set yields a fault carrying
/// that opcode and the program counter at fault, and mutates neither a
/// register nor memory: the faulting step hands the state back exactly
/// as it found it.
pub proof fn lemma_unsupported_opcode_faults(c: CPU, m: Map<u16, u8>)
    requires
        !c.nmi_pending,
        !c.irq_pending,
        !supported_opcode(m[c.program_counter]),
    ensures
        machine_step(c, m) == Step::Fault(c, m, m[c.program_counter], c.program_counter),
{
}

/// A taken conditional branch lands at the address following the
/// two-byte instruction plus the sign-extended displacement; a branch
/// not taken falls through to the address following the instruction.
pub proof fn lemma_branch_when_zero_set(c: CPU, m: Map<u16, u8>)
    requires
        !c.nmi_pending,
        !c.irq_pending,
        m[c.program_counter] == 0xF0,
    ensures
        machine_step(c, m) matches Step::Next(c1, m1) && m1 == m && c1.program_counter == (
        if c.status & 0x02 != 0 {
            branch_target(
                u16_specs::wrapping_add(c.program_counter, 2),
                m[u16_specs::wrapping_add(c.program_counter, 1)],
            )
        } else {
            u16_specs::wrapping_add(c.program_counter, 2)
        }),
{
}

} // verus!
