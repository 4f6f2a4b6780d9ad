use busyboard::eater::{Cpu, I};
use busyboard::simulator::{has_changed, to_string, Action, Edit, Mode, Out, Simulator};

#[test]
fn key_table_in_execute_mode() {
    let sim = Simulator::from(Cpu::from_asm(vec![I::hlt()], vec![]));
    assert_eq!(sim.action('a'), Some(Action::Turbo));
    assert_eq!(sim.action('s'), Some(Action::Mode(Mode::Step)));
    assert_eq!(sim.action('d'), Some(Action::Mode(Mode::Edit(Edit::IP))));
    assert_eq!(sim.action('q'), Some(Action::Quit));
    assert_eq!(sim.action('x'), None);
}

#[test]
fn key_table_in_step_and_edit_modes() {
    let mut sim = Simulator::from(Cpu::from_asm(vec![I::hlt()], vec![]));
    sim.update(Action::Mode(Mode::Step));
    assert_eq!(sim.action('a'), Some(Action::Mode(Mode::Execute)));
    assert_eq!(sim.action('s'), Some(Action::Step));
    assert_eq!(sim.action('d'), Some(Action::Mode(Mode::Edit(Edit::IP))));
    sim.update(Action::Mode(Mode::Edit(Edit::IP)));
    assert_eq!(sim.action('a'), Some(Action::Increment));
    assert_eq!(sim.action('s'), Some(Action::Shift));
    assert_eq!(sim.action('d'), Some(Action::Mode(Mode::Edit(Edit::Data))));
    sim.update(Action::Mode(Mode::Edit(Edit::Data)));
    assert_eq!(sim.action('d'), Some(Action::Mode(Mode::Step)));
    assert_eq!(sim.action('q'), Some(Action::Quit));
}

#[test]
fn quit_exits_and_step_fires_on_deadline_only_in_execute() {
    let mut sim = Simulator::from(Cpu::from_asm(vec![I::hlt()], vec![]));
    assert_eq!(sim.deadline_expired(), Some(Action::Step));
    assert!(!sim.exited());
    sim.update(Action::Mode(Mode::Step));
    assert_eq!(sim.deadline_expired(), None);
    sim.update(Action::Quit);
    assert!(sim.exited());
}

#[test]
fn turbo_toggles() {
    let mut sim = Simulator::from(Cpu::from_asm(vec![I::hlt()], vec![]));
    assert!(!sim.is_turbo());
    sim.update(Action::Turbo);
    assert!(sim.is_turbo());
    sim.update(Action::Turbo);
    assert!(!sim.is_turbo());
}

#[test]
fn step_action_runs_the_machine_and_fills_the_ring() {
    let mut sim = Simulator::from(Cpu::from_asm(vec![I::ldi(0x2a), I::out(), I::hlt()], vec![]));
    sim.update(Action::Step);
    assert!(!sim.out.new);
    assert_eq!(sim.cpu.ip(), 2);
    sim.update(Action::Step);
    assert!(sim.out.new);
    assert_eq!(sim.out.n, 1);
    assert_eq!(sim.out.data[0], 0x2a);
    // the render snapshot shows the state before the last update
    assert_eq!(sim.ui.previous_ax, 0x2a);
    assert_eq!(sim.ui.previous_ip, 2);
}

#[test]
fn increment_and_shift_edit_the_ip() {
    let mut sim = Simulator::from(Cpu::from_asm(vec![I::ldi(1), I::hlt()], vec![]));
    sim.update(Action::Mode(Mode::Edit(Edit::IP)));
    sim.update(Action::Increment);
    assert_eq!(sim.cpu.ip(), 1);
    sim.update(Action::Shift);
    assert_eq!(sim.cpu.ip(), 2);
    // outside an edit mode the same actions do nothing
    sim.update(Action::Mode(Mode::Step));
    sim.update(Action::Increment);
    sim.update(Action::Shift);
    assert_eq!(sim.cpu.ip(), 2);
}

#[test]
fn increment_and_shift_edit_the_addressed_byte() {
    let mut sim = Simulator::from(Cpu::from_asm(vec![], vec![0x07]));
    sim.update(Action::Mode(Mode::Edit(Edit::Data)));
    sim.update(Action::Increment);
    assert_eq!(sim.cpu.read(0), Some(0x08));
    sim.update(Action::Shift);
    assert_eq!(sim.cpu.read(0), Some(0x10));
}

#[test]
fn editing_past_the_end_grows_memory() {
    let mut sim = Simulator::from(Cpu::from_asm(vec![], vec![]));
    sim.update(Action::Mode(Mode::Edit(Edit::IP)));
    sim.update(Action::Increment);
    sim.update(Action::Increment);
    assert_eq!(sim.cpu.ip(), 2);
    sim.update(Action::Mode(Mode::Edit(Edit::Data)));
    sim.update(Action::Increment);
    assert_eq!(sim.cpu.len(), 3);
    assert_eq!(sim.cpu.read(2), Some(1));
}

#[test]
fn ring_wraps_after_sixteen_bytes() {
    let mut out = Out { data: vec![0u8; 16], n: 0, new: false };
    for value in 1u8..=17u8 {
        out.push(value);
    }
    assert_eq!(out.n, 17);
    assert_eq!(out.data[0], 17);
    assert_eq!(out.data[1], 2);
}

#[test]
fn ring_count_falls_back_to_256() {
    let mut out = Out { data: vec![0u8; 16], n: 0, new: false };
    for _ in 0..512 {
        out.push(0xee);
    }
    assert_eq!(out.n, 512);
    out.push(0xef);
    assert_eq!(out.n, 256);
    assert_eq!(out.data[0], 0xef);
}

#[test]
fn mode_and_mnemonic_names() {
    assert_eq!(Mode::Execute.name(), "Execute");
    assert_eq!(Mode::Step.name(), "Step");
    assert_eq!(Mode::Exit.name(), "Exiting");
    assert_eq!(Mode::Edit(Edit::IP).name(), "Edit");
    assert_eq!(Mode::Edit(Edit::Data).name(), "Edit");
    assert_eq!(to_string(&I::nop()), "Nop");
    assert_eq!(to_string(&I::ldi(1)), "Ldi");
    assert_eq!(to_string(&I::lda(1)), "Lda");
    assert_eq!(to_string(&I::sta(1)), "Sta");
    assert_eq!(to_string(&I::add(1)), "Add");
    assert_eq!(to_string(&I::sub(1)), "Sub");
    assert_eq!(to_string(&I::jmp(1)), "Jmp");
    assert_eq!(to_string(&I::jpz(1)), "Jpz");
    assert_eq!(to_string(&I::jpc(1)), "Jpc");
    assert_eq!(to_string(&I::out()), "Out");
    assert_eq!(to_string(&I::hlt()), "Hlt");
}

#[test]
fn has_changed_compares_against_the_previous_snapshot() {
    let bytes = [1u8, 2, 3];
    let previous = [1u8, 9];
    assert!(!has_changed(&bytes, 0, &previous, 0));
    assert!(has_changed(&bytes, 1, &previous, 1));
    // a position the previous snapshot did not cover counts as changed
    assert!(has_changed(&bytes, 2, &previous, 2));
}
