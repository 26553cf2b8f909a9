use nes6502_emulator::{Bus, Fault, Ram, CPU};

#[test]
fn push_pop_byte_round_trip() {
    let mut cpu = CPU::new();
    let mut ram = Ram::new();
    let sp_before = cpu.stack_pointer;
    cpu.push_byte(&mut ram, 0x42);
    let value = cpu.pop_byte(&mut ram);
    assert_eq!(value, 0x42);
    assert_eq!(cpu.stack_pointer, sp_before, "stack pointer is unchanged");
}

#[test]
fn push_pop_word_round_trip() {
    let mut cpu = CPU::new();
    let mut ram = Ram::new();
    let sp_before = cpu.stack_pointer;
    cpu.push_word(&mut ram, 0xBEEF);
    let value = cpu.pop_word(&mut ram);
    assert_eq!(value, 0xBEEF);
    assert_eq!(cpu.stack_pointer, sp_before, "stack pointer is unchanged");
}

#[test]
fn push_byte_writes_to_the_stack_page() {
    let mut cpu = CPU::new();
    let mut ram = Ram::new();
    cpu.stack_pointer = 0x80;
    cpu.push_byte(&mut ram, 0xAB);
    assert_eq!(ram.read(0x0180), 0xAB);
    assert_eq!(cpu.stack_pointer, 0x7F);
}

#[test]
fn stack_pointer_wraps_on_push() {
    let mut cpu = CPU::new();
    let mut ram = Ram::new();
    cpu.stack_pointer = 0x00;
    cpu.push_byte(&mut ram, 0x01);
    assert_eq!(cpu.stack_pointer, 0xFF, "pushing at 0x00 wraps to 0xFF");
    assert_eq!(ram.read(0x0100), 0x01);
}

#[test]
fn stack_pointer_wraps_on_pop() {
    let mut cpu = CPU::new();
    let mut ram = Ram::new();
    cpu.stack_pointer = 0xFF;
    let _ = cpu.pop_byte(&mut ram);
    assert_eq!(cpu.stack_pointer, 0x00, "popping at 0xFF wraps to 0x00");
}

#[test]
fn ram_starts_zeroed() {
    let ram = Ram::new();
    assert_eq!(ram.read(0x0000), 0);
    assert_eq!(ram.read(0x1234), 0);
    assert_eq!(ram.read(0xFFFF), 0);
}

#[test]
fn ram_write_then_read_returns_the_byte() {
    let mut ram = Ram::new();
    ram.write(0xABCD, 0x5A);
    assert_eq!(ram.read(0xABCD), 0x5A);
    assert_eq!(ram.read(0xABCC), 0x00, "other addresses keep their byte");
}

#[test]
fn ram_load_copies_the_image() {
    let mut ram = Ram::new();
    let r = ram.load(0x0200, &vec![1, 2, 3]);
    assert_eq!(r, Ok(()));
    assert_eq!(ram.read(0x01FF), 0);
    assert_eq!(ram.read(0x0200), 1);
    assert_eq!(ram.read(0x0201), 2);
    assert_eq!(ram.read(0x0202), 3);
    assert_eq!(ram.read(0x0203), 0);
}

#[test]
fn ram_load_fills_up_to_the_top_boundary() {
    let mut ram = Ram::new();
    let r = ram.load(0xFFFE, &vec![0xAA, 0xBB]);
    assert_eq!(r, Ok(()));
    assert_eq!(ram.read(0xFFFE), 0xAA);
    assert_eq!(ram.read(0xFFFF), 0xBB);
}

#[test]
fn ram_load_rejects_an_image_past_the_top() {
    let mut ram = Ram::new();
    ram.write(0xFFFF, 0x77);
    let r = ram.load(0xFFFF, &vec![1, 2]);
    assert_eq!(r, Err(Fault::OutOfRangeLoad { start: 0xFFFF, length: 2 }));
    assert_eq!(ram.read(0xFFFF), 0x77, "a rejected load mutates nothing");
}
