use busyboard::eater::{Cpu, Flag, I, IBuilder};

fn assert_round_trip(i: I) {
    let bytes = i.assemble();
    match I::from_opcode(bytes[0]) {
        IBuilder::Complete(decoded) => {
            assert_eq!(bytes.len(), 1);
            assert_eq!(decoded, i);
        },
        IBuilder::NeedsData(incomplete) => {
            assert_eq!(bytes.len(), 2);
            assert_eq!(incomplete.with_data(bytes[1]), i);
        },
        IBuilder::Invalid => panic!("an assembled instruction must decode"),
    }
}

#[test]
fn encode_decode_round_trip_every_kind() {
    assert_round_trip(I::nop());
    assert_round_trip(I::ldi(0x42));
    assert_round_trip(I::lda(0x17));
    assert_round_trip(I::sta(0xfe));
    assert_round_trip(I::add(0x01));
    assert_round_trip(I::sub(0xff));
    assert_round_trip(I::jmp(0x00));
    assert_round_trip(I::jpz(0x80));
    assert_round_trip(I::jpc(0x0d));
    assert_round_trip(I::out());
    assert_round_trip(I::hlt());
}

#[test]
fn unassigned_opcodes_are_invalid() {
    for opcode in 9u8..=13u8 {
        assert!(matches!(I::from_opcode(opcode), IBuilder::Invalid));
    }
    assert!(matches!(I::from_opcode(0), IBuilder::Complete(_)));
    assert!(matches!(I::from_opcode(8), IBuilder::NeedsData(_)));
    assert!(matches!(I::from_opcode(14), IBuilder::Complete(_)));
    assert!(matches!(I::from_opcode(15), IBuilder::Complete(_)));
    assert!(matches!(I::from_opcode(16), IBuilder::Invalid));
    assert!(matches!(I::from_opcode(255), IBuilder::Invalid));
}

#[test]
fn encodings_are_opcode_then_operand() {
    assert_eq!(I::nop().assemble(), vec![0]);
    assert_eq!(I::ldi(0xab).assemble(), vec![1, 0xab]);
    assert_eq!(I::lda(0x03).assemble(), vec![2, 0x03]);
    assert_eq!(I::sta(0x04).assemble(), vec![3, 0x04]);
    assert_eq!(I::add(0x05).assemble(), vec![4, 0x05]);
    assert_eq!(I::sub(0x06).assemble(), vec![5, 0x06]);
    assert_eq!(I::jmp(0x07).assemble(), vec![6, 0x07]);
    assert_eq!(I::jpz(0x08).assemble(), vec![7, 0x08]);
    assert_eq!(I::jpc(0x09).assemble(), vec![8, 0x09]);
    assert_eq!(I::out().assemble(), vec![14]);
    assert_eq!(I::hlt().assemble(), vec![15]);
}

#[test]
fn ldi_loads_immediate() {
    let mut cpu = Cpu::from_asm(vec![I::ldi(0x0d), I::hlt()], vec![]);
    cpu.step();
    assert_eq!(cpu.a(), 0x0d);
    assert_eq!(cpu.ip(), 2);
}

#[test]
fn lda_loads_from_memory() {
    let mut cpu = Cpu::from_asm(vec![I::lda(0x03)], vec![0x0d, 0x0e, 0x0f]);
    cpu.step();
    assert_eq!(cpu.a(), 0x0e);
    assert_eq!(cpu.ip(), 2);
}

#[test]
fn sta_stores_accumulator() {
    let mut cpu = Cpu::from_asm(vec![I::lda(0x04), I::sta(0x05)], vec![0xcd, 0x00]);
    cpu.step();
    cpu.step();
    assert_eq!(cpu.read_bytes(0x04, 2), [0xcd, 0xcd]);
    assert_eq!(cpu.ip(), 4);
}

#[test]
fn add_overflow_sets_carry_and_wraps() {
    // A = 0xFF plus operand 0x01 wraps to 0x00 with carry.
    let mut cpu = Cpu::from_asm(vec![I::ldi(0xff), I::add(0x05), I::hlt()], vec![0x01]);
    cpu.step();
    cpu.step();
    assert_eq!(cpu.a(), 0x00);
    assert!(cpu.get(Flag::Carry));
}

#[test]
fn add_without_overflow_clears_stale_carry() {
    // the first add sets carry; the second has no overflow, so carry must drop
    let mut cpu = Cpu::from_asm(
        vec![I::ldi(0xff), I::add(0x07), I::add(0x08), I::hlt()],
        vec![0x01, 0x01],
    );
    cpu.step();
    cpu.step();
    assert!(cpu.get(Flag::Carry));
    cpu.step();
    assert_eq!(cpu.a(), 0x01);
    assert!(!cpu.get(Flag::Carry));
}

#[test]
fn sub_borrow_sets_carry_and_wraps() {
    // A = 0x01 minus operand 0x02 wraps to 0xFF with carry (borrow).
    let mut cpu = Cpu::from_asm(vec![I::ldi(0x01), I::sub(0x05), I::hlt()], vec![0x02]);
    cpu.step();
    cpu.step();
    assert_eq!(cpu.a(), 0xff);
    assert!(cpu.get(Flag::Carry));
}

#[test]
fn sub_without_borrow_clears_stale_carry() {
    let mut cpu = Cpu::from_asm(
        vec![I::ldi(0x01), I::sub(0x07), I::sub(0x08), I::hlt()],
        vec![0x02, 0x01],
    );
    cpu.step();
    cpu.step();
    assert!(cpu.get(Flag::Carry));
    cpu.step();
    assert_eq!(cpu.a(), 0xfe);
    assert!(!cpu.get(Flag::Carry));
}

#[test]
fn arithmetic_on_unreadable_operand_only_clears_carry() {
    let mut cpu = Cpu::from_asm(vec![I::ldi(0xff), I::add(0x00), I::add(0xf0), I::hlt()], vec![]);
    cpu.step();
    cpu.step();
    assert!(cpu.get(Flag::Carry));
    cpu.step();
    // address 0xf0 is past the end: the accumulator keeps its value and
    // carry is re-evaluated to false
    assert_eq!(cpu.a(), 0x00);
    assert!(!cpu.get(Flag::Carry));
}

#[test]
fn jmp_moves_ip_and_out_of_range_target_halts_illegally() {
    let mut cpu = Cpu::from_asm(vec![I::jmp(0x02), I::jmp(0xcc)], vec![0x15]);
    cpu.step();
    assert_eq!(cpu.ip(), 0x02);
    cpu.step();
    assert!(cpu.get(Flag::IllegalHalt));
    assert_eq!(cpu.ip(), 0x02);
}

#[test]
fn jpz_taken_with_out_of_range_target_halts_illegally() {
    let mut cpu = Cpu::from_asm(vec![I::jpz(0x80), I::hlt()], vec![]);
    cpu.step();
    assert!(cpu.get(Flag::IllegalHalt));
    assert_eq!(cpu.ip(), 0);
}

#[test]
fn jpc_taken_with_out_of_range_target_halts_illegally() {
    let mut cpu = Cpu::from_asm(
        vec![I::ldi(0xff), I::add(0x07), I::jpc(0x80), I::hlt()],
        vec![0x01],
    );
    cpu.step();
    cpu.step();
    assert!(cpu.get(Flag::Carry));
    cpu.step();
    assert!(cpu.get(Flag::IllegalHalt));
    assert_eq!(cpu.ip(), 4);
}

#[test]
fn jpz_jumps_only_on_zero() {
    let mut cpu = Cpu::from_asm(
        vec![I::ldi(0x01), I::jpz(0x04), I::ldi(0x00), I::jpz(0x00)],
        vec![],
    );
    cpu.step();
    cpu.step();
    assert_eq!(cpu.ip(), 4);
    cpu.step();
    cpu.step();
    assert_eq!(cpu.ip(), 0);
}

#[test]
fn jpc_jumps_only_on_carry() {
    let mut cpu = Cpu::from_asm(
        vec![I::jpc(0xdd), I::ldi(0xff), I::add(0x01), I::jpc(0x00), I::hlt()],
        vec![],
    );
    cpu.step();
    assert_eq!(cpu.ip(), 0x02);
    cpu.step();
    cpu.step();
    cpu.step();
    assert_eq!(cpu.ip(), 0x00);
}

#[test]
fn out_records_the_accumulator() {
    let mut cpu = Cpu::from_asm(vec![I::ldi(0x0d), I::out(), I::hlt()], vec![]);
    cpu.step();
    cpu.step();
    assert_eq!(cpu.ip(), 3);
    assert_eq!(cpu.out().clone(), vec![0x0d]);
}

#[test]
fn hlt_freezes_the_machine() {
    let mut cpu = Cpu::from_asm(vec![I::ldi(0x2a), I::hlt()], vec![0x77]);
    cpu.step();
    cpu.step();
    assert!(cpu.get(Flag::Halt));
    assert_eq!(cpu.ip(), 2);
    // once halted, repeated steps change nothing
    for _ in 0..3 {
        cpu.step();
        assert!(cpu.get(Flag::Halt));
        assert_eq!(cpu.ip(), 2);
        assert_eq!(cpu.a(), 0x2a);
        assert_eq!(cpu.read_bytes(0, 5), [1, 0x2a, 15, 0x77]);
    }
}
