use busyboard::eater::{Cpu, Flag, I};

#[test]
fn eater_fibonacci() {
    let mut cpu = Cpu::from_asm(
        vec![
            I::lda(23), // 0
            I::out(),   // 2
            I::add(24), // 3
            I::sta(25), // 5
            I::lda(24), // 7
            I::sta(23), // 9
            I::lda(25), // 11
            I::sta(24), // 13
            I::jpc(19), // 15
            I::jmp(0),  // 17
            I::lda(23), // 19
            I::out(),   // 21
            I::hlt(),   // 22
        ],
        vec![
            0x00, // n    ,f_n
            0x01, // n + 1, f_{n-1}
            0x00, // temp
        ],
    );

    while !cpu.get(Flag::Halt) && !cpu.get(Flag::IllegalHalt) {
        cpu.step();
    }

    assert_eq!(cpu.out().clone(), vec![
        0x00, 0x01, 0x01, 0x02, 0x03, 0x05, 0x08, 0x0d, 0x15, 0x22, 0x37, 0x59, 0x90, 0xe9,
    ]);
}
