use busyboard::eater::{Cpu, Flag, I};

#[test]
fn empty_machine_halts_illegally() {
    let mut cpu = Cpu::from_asm(vec![], vec![]);
    cpu.step();
    assert!(cpu.get(Flag::IllegalHalt));
}

#[test]
fn unassigned_opcode_at_ip_halts_illegally() {
    for opcode in 9u8..=13u8 {
        let mut cpu = Cpu::from_asm(vec![], vec![opcode, 0x55]);
        cpu.step();
        assert!(cpu.get(Flag::IllegalHalt));
        // accumulator and memory are untouched
        assert_eq!(cpu.a(), 0);
        assert_eq!(cpu.ip(), 0);
        assert_eq!(cpu.read_bytes(0, 2), [opcode, 0x55]);
    }
}

#[test]
fn missing_operand_byte_halts_illegally() {
    // an Ldi opcode as the very last byte has no operand to read
    let mut cpu = Cpu::from_asm(vec![], vec![1]);
    cpu.step();
    assert!(cpu.get(Flag::IllegalHalt));
}

#[test]
fn write_past_end_grows_memory_and_zero_fills() {
    let mut cpu = Cpu::from_asm(vec![], vec![0x01]);
    // reading the address beforehand yields no value, not zero
    assert_eq!(cpu.read(5), None);
    cpu.write(5, 0x96);
    assert_eq!(cpu.len(), 6);
    assert_eq!(cpu.read(5), Some(0x96));
    assert_eq!(cpu.read_bytes(0, 6), [0x01, 0, 0, 0, 0, 0x96]);
}

#[test]
fn write_in_range_updates_one_byte() {
    let mut cpu = Cpu::from_asm(vec![], vec![0x01, 0x02, 0x03]);
    cpu.write(1, 0xaa);
    assert_eq!(cpu.len(), 3);
    assert_eq!(cpu.read_bytes(0, 3), [0x01, 0xaa, 0x03]);
}

#[test]
fn manual_writes_then_step_executes_them() {
    let mut cpu = Cpu::from_asm(vec![], vec![]);
    cpu.write(0, 0x01);
    cpu.write(1, 0x96);
    cpu.write(2, 0x0f);
    cpu.step();
    assert_eq!(cpu.read(0), Some(0x01));
    assert_eq!(cpu.read(1), Some(0x96));
    assert_eq!(cpu.a(), 0x96);
}

#[test]
fn goto_seeks_without_executing() {
    let mut cpu = Cpu::from_asm(vec![I::ldi(0xdf), I::hlt()], vec![]);
    cpu.goto(2);
    cpu.step();
    assert_eq!(cpu.a(), 0x0);
    assert_eq!(cpu.ip(), 2);
}

#[test]
fn read_bytes_clamps_to_memory_length() {
    let cpu = Cpu::from_asm(vec![], vec![0x01, 0x02, 0x03]);
    assert_eq!(cpu.read_bytes(0, 3), [0x01, 0x02, 0x03]);
    assert_eq!(cpu.read_bytes(1, 10), [0x02, 0x03]);
    assert_eq!(cpu.read_bytes(200, 5), []);
    assert_eq!(cpu.read_bytes(0, 0), []);
}

#[test]
fn count_to_one_hundred() {
    // add 1 to a counter, emit it, and loop until it reaches 100
    let mut cpu = Cpu::from_asm(
        vec![
            I::lda(15),
            I::add(14),
            I::sta(15),
            I::out(),
            I::sub(16),
            I::jpz(13),
            I::jmp(0),
            I::hlt(),
        ],
        vec![0x01, 0x00, 100],
    );
    let mut steps = 0u32;
    while !cpu.get(Flag::Halt) && !cpu.get(Flag::IllegalHalt) && steps < 100_000 {
        cpu.step();
        steps += 1;
    }
    assert!(cpu.get(Flag::Halt));
    let outputs = cpu.out().clone();
    assert_eq!(outputs.len(), 100);
    assert_eq!(outputs[0], 1);
    assert_eq!(outputs[99], 100);
}
