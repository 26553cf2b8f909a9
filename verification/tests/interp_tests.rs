use nes6502_emulator::Fault;
use nes6502_emulator::interp::CPU;

#[test]
fn test_5_ops_working_together() {
    let mut cpu = CPU::new();
    let _ = cpu.interpret(vec![0xa9, 0xc0, 0xaa, 0xe8, 0x00]);

    assert_eq!(cpu.register_x, 0xc1)
}

#[test]
fn test_inx_overflow() {
    let mut cpu = CPU::new();
    cpu.register_x = 0xff;
    let _ = cpu.interpret(vec![0xe8, 0xe8, 0x00]);

    assert_eq!(cpu.register_x, 1)
}

#[test]
fn interpret_lda_loads_and_stops_past_the_halt_byte() {
    let mut cpu = CPU::new();
    let r = cpu.interpret(vec![0xA9, 0x10, 0x00]);
    assert_eq!(r, Ok(()));
    assert_eq!(cpu.register_a, 0x10);
    assert_eq!(cpu.program_counter, 3);
}

#[test]
fn interpret_lda_zero_sets_zero_flag() {
    let mut cpu = CPU::new();
    let r = cpu.interpret(vec![0xA9, 0x00, 0x00]);
    assert_eq!(r, Ok(()));
    assert_ne!(cpu.status & 0b0000_0010, 0, "Zero flag should be set");
}

#[test]
fn interpret_tax_copies_accumulator() {
    let mut cpu = CPU::new();
    let r = cpu.interpret(vec![0xA9, 0x8E, 0xAA, 0x00]);
    assert_eq!(r, Ok(()));
    assert_eq!(cpu.register_x, 0x8E);
    assert_ne!(cpu.status & 0b1000_0000, 0, "Negative flag should be set");
}

#[test]
fn interpret_unsupported_opcode_faults_without_mutation() {
    let mut cpu = CPU::new();
    cpu.register_a = 0x33;
    let r = cpu.interpret(vec![0x01]);
    assert_eq!(r, Err(Fault::UnsupportedOpcode { opcode: 0x01, address: 0 }));
    assert_eq!(cpu.register_a, 0x33);
    assert_eq!(cpu.program_counter, 0, "the faulting fetch consumes nothing");
}

#[test]
fn interpret_reads_zero_past_the_image() {
    let mut cpu = CPU::new();
    cpu.register_a = 0x44;
    // An empty image: the first fetch reads a zero byte, which halts.
    let r = cpu.interpret(vec![]);
    assert_eq!(r, Ok(()));
    assert_eq!(cpu.register_a, 0x44);
    assert_eq!(cpu.program_counter, 1);
}
