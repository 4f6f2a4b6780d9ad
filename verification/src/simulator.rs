//! The interactive simulator's decision layer: the mode state machine, the
//! key-to-action table, the edit operations and the output ring that a
//! terminal front-end renders. The front-end owns the terminal, the timer
//! and the key events; it hands plain characters in and performs the
//! rendering outside this crate.
use vstd::prelude::*;
use crate::eater::{Cpu, Flag, I, MachineView};
use crate::eater::{spec_read, spec_step, spec_wrap_add, spec_write};

verus! {

/// What the simulator is currently doing: editing the machine, free
/// running, about to leave, or single-stepping.
#[derive(Clone, Copy, Debug, PartialEq, Eq, Structural)]
pub enum Mode {
    Edit(Edit),
    Execute,
    Exit,
    Step,
}

/// Which part of the machine an edit keystroke works on: the instruction
/// pointer, or the byte it points at.
#[derive(Clone, Copy, Debug, PartialEq, Eq, Structural)]
pub enum Edit {
    IP,
    Data,
}

/// One user-triggered transition of the simulator.
#[derive(Clone, Copy, Debug, PartialEq, Eq, Structural)]
pub enum Action {
    Increment,
    Mode(Mode),
    Quit,
    Shift,
    Step,
    Turbo,
}

/// The last machine state a front-end rendered, kept so that changed bytes
/// and registers can be highlighted.
pub struct Ui {
    pub previous_ax: u8,
    pub previous_bytes: Vec<u8>,
    pub previous_ip: u8,
    pub previous_flag_c: bool,
    pub previous_flag_h: bool,
    pub previous_flag_i: bool,
}

/// A ring of the sixteen most recent output bytes, with a running count
/// and a flag telling the front-end whether the latest render cycle saw a
/// new byte arrive.
pub struct Out {
    pub data: Vec<u8>,
    pub n: usize,
    pub new: bool,
}

impl Out {
    /// The ring always holds exactly sixteen cells, and the running count
    /// never passes 512.
    pub open spec fn wf(&self) -> bool {
        self.data@.len() == 16 && self.n <= 512
    }

    /// Record one output byte: it lands in the cell the running count
    /// selects, the count advances (falling back to 256 once it passes
    /// 512, so it never overflows while keeping its position in the ring),
    /// and the new-output flag is raised.
    pub fn push(&mut self, value: u8)
        requires
            old(self).wf(),
        ensures
            final(self).wf(),
            final(self).data@ == old(self).data@.update(old(self).n as int % 16, value),
            final(self).n == (if old(self).n >= 512 {
                256int
            } else {
                old(self).n + 1
            }),
            final(self).new == true,
    {
        let n: usize = self.n;
        self.data.set(n % 16, value);
        self.new = true;
        self.n = n + 1;
        if n >= 512 {
            self.n = 256;
        }
    }
}

/// The byte the instruction pointer addresses, or zero when it points
/// past the end of memory.
pub open spec fn spec_pointee_or_zero(c: MachineView) -> u8 {
    match spec_read(c.ram, c.ip) {
        Some(v) => v,
        None => 0,
    }
}

/// Eight-bit doubling that wraps around at 256.
pub open spec fn spec_wrap_double(a: u8) -> u8 {
    ((2 * a) % 256) as u8
}

/// The machine state after the simulator applies an action in a mode.
/// Only `Step` runs the machine; `Increment` and `Shift` edit it when an
/// edit mode is active; everything else leaves it alone.
pub open spec fn spec_cpu_after(c: MachineView, mode: Mode, action: Action) -> MachineView {
    match action {
        Action::Increment => if mode == Mode::Edit(Edit::IP) {
            MachineView { ip: spec_wrap_add(c.ip, 1), ..c }
        } else if mode == Mode::Edit(Edit::Data) {
            MachineView { ram: spec_write(c.ram, c.ip, spec_wrap_add(spec_pointee_or_zero(c), 1)), ..c }
        } else {
            c
        },
        Action::Shift => if mode == Mode::Edit(Edit::IP) {
            MachineView { ip: spec_wrap_double(c.ip), ..c }
        } else if mode == Mode::Edit(Edit::Data) {
            MachineView { ram: spec_write(c.ram, c.ip, spec_wrap_double(spec_pointee_or_zero(c))), ..c }
        } else {
            c
        },
        Action::Step => spec_step(c),
        _ => c,
    }
}

/// The mode after an action: `Mode` switches to the carried mode, `Quit`
/// leaves, everything else stays.
pub open spec fn spec_mode_after(mode: Mode, action: Action) -> Mode {
    match action {
        Action::Mode(m) => m,
        Action::Quit => Mode::Exit,
        _ => mode,
    }
}

/// The byte an action makes the machine emit, if any: only a `Step` that
/// executes an `Out` instruction emits one.
pub open spec fn spec_emitted(c: MachineView, action: Action) -> Option<u8> {
    if action is Step && spec_step(c).out.len() > c.out.len() {
        Some(spec_step(c).out.last())
    } else {
        None
    }
}

/// The key-to-action table. The keys a, s and d mean different things in
/// each mode; q always quits.
pub open spec fn spec_action(mode: Mode, key: char) -> Option<Action> {
    if key == 'a' && mode == Mode::Execute {
        Some(Action::Turbo)
    } else if key == 's' && mode == Mode::Execute {
        Some(Action::Mode(Mode::Step))
    } else if key == 'd' && mode == Mode::Execute {
        Some(Action::Mode(Mode::Edit(Edit::IP)))
    } else if key == 'a' && mode == Mode::Step {
        Some(Action::Mode(Mode::Execute))
    } else if key == 's' && mode == Mode::Step {
        Some(Action::Step)
    } else if key == 'd' && mode == Mode::Step {
        Some(Action::Mode(Mode::Edit(Edit::IP)))
    } else if key == 'a' && mode is Edit {
        Some(Action::Increment)
    } else if key == 's' && mode is Edit {
        Some(Action::Shift)
    } else if key == 'd' && mode == Mode::Edit(Edit::IP) {
        Some(Action::Mode(Mode::Edit(Edit::Data)))
    } else if key == 'd' && mode == Mode::Edit(Edit::Data) {
        Some(Action::Mode(Mode::Step))
    } else if key == 'q' {
        Some(Action::Quit)
    } else {
        None
    }
}

/// The simulator: the machine, the current mode, the output ring, the
/// speed toggle and the snapshot of what was last rendered.
pub struct Simulator {
    pub cpu: Cpu,
    pub mode: Mode,
    pub out: Out,
    pub turbo: bool,
    pub ui: Ui,
}

impl Mode {
    /// Whether the mode is one of the two edit modes.
    pub fn is_edit(&self) -> (r: bool)
        ensures
            r == (*self is Edit),
    {
        match self {
            Mode::Edit(_) => true,
            _ => false,
        }
    }

    /// The mode's display name.
    pub fn name(&self) -> (r: String)
        ensures
            r@ == spec_mode_name(*self),
    {
        match self {
            Mode::Edit(_) => "Edit".to_string(),
            Mode::Execute => "Execute".to_string(),
            Mode::Exit => "Exiting".to_string(),
            Mode::Step => "Step".to_string(),
        }
    }
}

/// The display name of a mode.
pub open spec fn spec_mode_name(mode: Mode) -> Seq<char> {
    match mode {
        Mode::Edit(_) => "Edit"@,
        Mode::Execute => "Execute"@,
        Mode::Exit => "Exiting"@,
        Mode::Step => "Step"@,
    }
}

/// The mnemonic of an instruction.
pub open spec fn spec_mnemonic(i: I) -> Seq<char> {
    match i {
        I::Nop(_) => "Nop"@,
        I::Ldi(_) => "Ldi"@,
        I::Lda(_) => "Lda"@,
        I::Sta(_) => "Sta"@,
        I::Add(_) => "Add"@,
        I::Sub(_) => "Sub"@,
        I::Jmp(_) => "Jmp"@,
        I::Jpz(_) => "Jpz"@,
        I::Jpc(_) => "Jpc"@,
        I::Out(_) => "Out"@,
        I::Hlt(_) => "Hlt"@,
    }
}

/// The mnemonic of an instruction, for display.
pub fn to_string(i: &I) -> (r: String)
    ensures
        r@ == spec_mnemonic(*i),
{
    match i {
        I::Nop(_) => "Nop".to_string(),
        I::Ldi(_) => "Ldi".to_string(),
        I::Lda(_) => "Lda".to_string(),
        I::Sta(_) => "Sta".to_string(),
        I::Add(_) => "Add".to_string(),
        I::Sub(_) => "Sub".to_string(),
        I::Jmp(_) => "Jmp".to_string(),
        I::Jpz(_) => "Jpz".to_string(),
        I::Jpc(_) => "Jpc".to_string(),
        I::Out(_) => "Out".to_string(),
        I::Hlt(_) => "Hlt".to_string(),
    }
}

/// Whether the byte at `current` differs from what was previously rendered
/// at `previous`; a position the previous snapshot did not cover counts as
/// changed.
pub fn has_changed(bytes: &[u8], current: usize, previous_bytes: &[u8], previous: usize) -> (r:
    bool)
    requires
        current < bytes@.len(),
    ensures
        r == (previous >= previous_bytes@.len()
            || bytes@[current as int] != previous_bytes@[previous as int]),
{
    if previous >= previous_bytes.len() {
        return true;
    }
    bytes[current] != previous_bytes[previous]
}

/// A copy of the machine's whole memory.
fn snapshot(cpu: &mut Cpu) -> (r: Vec<u8>)
    requires
        old(cpu).wf(),
    ensures
        final(cpu)@ == old(cpu)@,
        r@ == old(cpu)@.ram,
{
    let len: usize = cpu.len();
    let mut bytes: Vec<u8> = Vec::new();
    let mut i: usize = 0;
    while i < len
        invariant
            i <= len,
            cpu@ == old(cpu)@,
            cpu.wf(),
            len == cpu@.ram.len(),
            bytes@ == cpu@.ram.subrange(0, i as int),
        decreases len - i,
    {
        match cpu.read(i as u8) {
            Some(b) => {
                bytes.push(b);
            },
            None => {
                proof {
                    assert(false);
                }
            },
        }
        i = i + 1;
        proof {
            assert(bytes@ =~= cpu@.ram.subrange(0, i as int));
        }
    }
    proof {
        assert(bytes@ =~= cpu@.ram);
    }
    bytes
}

impl Simulator {
    /// The machine stays within its address space and the output ring
    /// keeps its sixteen cells.
    pub open spec fn wf(&self) -> bool {
        self.cpu.wf() && self.out.wf()
    }

    /// Wrap a machine for interactive use: free-running mode, normal
    /// speed, an empty output ring, and a render snapshot of the machine
    /// as handed in.
    pub fn from(cpu: Cpu) -> (r: Simulator)
        requires
            cpu.wf(),
        ensures
            r.wf(),
            r.cpu@ == cpu@,
            r.mode == Mode::Execute,
            r.turbo == false,
            r.out.data@ == Seq::new(16, |i: int| 0u8),
            r.out.n == 0,
            r.out.new == false,
            r.ui.previous_ax == cpu@.a,
            r.ui.previous_bytes@ == cpu@.ram,
            r.ui.previous_ip == cpu@.ip,
            r.ui.previous_flag_c == cpu@.carry,
            r.ui.previous_flag_h == cpu@.halt,
            r.ui.previous_flag_i == cpu@.illegal_halt,
    {
        let mut cpu = cpu;
        let previous_bytes = snapshot(&mut cpu);
        let ui = Ui {
            previous_ax: cpu.a(),
            previous_bytes,
            previous_ip: cpu.ip(),
            previous_flag_c: cpu.get(Flag::Carry),
            previous_flag_h: cpu.get(Flag::Halt),
            previous_flag_i: cpu.get(Flag::IllegalHalt),
        };
        let mut ring: Vec<u8> = Vec::new();
        let mut i: usize = 0;
        while i < 16
            invariant
                i <= 16,
                ring@ == Seq::new(i as nat, |k: int| 0u8),
            decreases 16 - i,
        {
            ring.push(0);
            i = i + 1;
            proof {
                assert(ring@ =~= Seq::new(i as nat, |k: int| 0u8));
            }
        }
        let out = Out { data: ring, n: 0, new: false };
        Simulator { cpu, mode: Mode::Execute, out, turbo: false, ui }
    }

    /// The action a key maps to in the current mode, if any.
    pub fn action(&self, key: char) -> (r: Option<Action>)
        ensures
            r == spec_action(self.mode, key),
    {
        if key == 'a' && self.mode == Mode::Execute {
            Some(Action::Turbo)
        } else if key == 's' && self.mode == Mode::Execute {
            Some(Action::Mode(Mode::Step))
        } else if key == 'd' && self.mode == Mode::Execute {
            Some(Action::Mode(Mode::Edit(Edit::IP)))
        } else if key == 'a' && self.mode == Mode::Step {
            Some(Action::Mode(Mode::Execute))
        } else if key == 's' && self.mode == Mode::Step {
            Some(Action::Step)
        } else if key == 'd' && self.mode == Mode::Step {
            Some(Action::Mode(Mode::Edit(Edit::IP)))
        } else if key == 'a' && self.mode.is_edit() {
            Some(Action::Increment)
        } else if key == 's' && self.mode.is_edit() {
            Some(Action::Shift)
        } else if key == 'd' && self.mode == Mode::Edit(Edit::IP) {
            Some(Action::Mode(Mode::Edit(Edit::Data)))
        } else if key == 'd' && self.mode == Mode::Edit(Edit::Data) {
            Some(Action::Mode(Mode::Step))
        } else if key == 'q' {
            Some(Action::Quit)
        } else {
            None
        }
    }

    /// Whether the simulator has been asked to leave.
    pub fn exited(&self) -> (r: bool)
        ensures
            r == (self.mode == Mode::Exit),
    {
        self.mode == Mode::Exit
    }

    /// The action the front-end's timer fires when its deadline passes:
    /// a step while free running, nothing otherwise.
    pub fn deadline_expired(&self) -> (r: Option<Action>)
        ensures
            r == (if self.mode == Mode::Execute {
                Some(Action::Step)
            } else {
                None::<Action>
            }),
    {
        if self.mode == Mode::Execute {
            Some(Action::Step)
        } else {
            None
        }
    }

    /// Whether the fast stepping rate is selected.
    pub fn is_turbo(&self) -> (r: bool)
        ensures
            r == self.turbo,
    {
        self.turbo
    }

    /// Apply one action: remember the present machine state for change
    /// highlighting, then carry the action out — mode switches, edits of
    /// the instruction pointer or the addressed byte, a machine step
    /// (whose emitted byte, if any, lands in the output ring), or the
    /// speed toggle.
    pub fn update(&mut self, action: Action)
        requires
            old(self).wf(),
        ensures
            final(self).wf(),
            final(self).cpu@ == spec_cpu_after(old(self).cpu@, old(self).mode, action),
            final(self).mode == spec_mode_after(old(self).mode, action),
            final(self).turbo == (if action is Turbo {
                !old(self).turbo
            } else {
                old(self).turbo
            }),
            final(self).ui.previous_ax == old(self).cpu@.a,
            final(self).ui.previous_bytes@ == old(self).cpu@.ram,
            final(self).ui.previous_ip == old(self).cpu@.ip,
            final(self).ui.previous_flag_c == old(self).cpu@.carry,
            final(self).ui.previous_flag_h == old(self).cpu@.halt,
            final(self).ui.previous_flag_i == old(self).cpu@.illegal_halt,
            final(self).out.data@ == (match spec_emitted(old(self).cpu@, action) {
                Some(v) => old(self).out.data@.update(old(self).out.n as int % 16, v),
                None => old(self).out.data@,
            }),
            final(self).out.n == (match spec_emitted(old(self).cpu@, action) {
                Some(_) => if old(self).out.n >= 512 {
                    256int
                } else {
                    old(self).out.n + 1
                },
                None => old(self).out.n as int,
            }),
            final(self).out.new == (spec_emitted(old(self).cpu@, action) is Some),
    {
        self.out.new = false;
        self.ui.previous_bytes = snapshot(&mut self.cpu);
        self.ui.previous_ax = self.cpu.a();
        self.ui.previous_ip = self.cpu.ip();
        self.ui.previous_flag_c = self.cpu.get(Flag::Carry);
        self.ui.previous_flag_h = self.cpu.get(Flag::Halt);
        self.ui.previous_flag_i = self.cpu.get(Flag::IllegalHalt);
        match action {
            Action::Increment => {
                match self.mode {
                    Mode::Edit(Edit::IP) => {
                        let ip: u8 = self.cpu.ip();
                        self.cpu.goto(ip.wrapping_add(1));
                    },
                    Mode::Edit(Edit::Data) => {
                        let ip: u8 = self.cpu.ip();
                        let value: u8 = match self.cpu.read(ip) {
                            Some(v) => v,
                            None => 0,
                        };
                        self.cpu.write(ip, value.wrapping_add(1));
                    },
                    _ => {},
                }
            },
            Action::Mode(mode) => {
                self.mode = mode;
            },
            Action::Quit => {
                self.mode = Mode::Exit;
            },
            Action::Shift => {
                match self.mode {
                    Mode::Edit(Edit::IP) => {
                        let ip: u8 = self.cpu.ip();
                        self.cpu.goto(ip.wrapping_mul(2));
                    },
                    Mode::Edit(Edit::Data) => {
                        let ip: u8 = self.cpu.ip();
                        let value: u8 = match self.cpu.read(ip) {
                            Some(v) => v,
                            None => 0,
                        };
                        self.cpu.write(ip, value.wrapping_mul(2));
                    },
                    _ => {},
                }
            },
            Action::Step => {
                let emitted_before: usize = self.cpu.out().len();
                self.cpu.step();
                let trace: &Vec<u8> = self.cpu.out();
                if trace.len() > emitted_before {
                    let value: u8 = trace[trace.len() - 1];
                    self.out.push(value);
                }
            },
            Action::Turbo => {
                self.turbo = !self.turbo;
            },
        }
    }
}

} // verus!
