//! The machine state and its fetch/decode/execute cycle.
//!
//! The whole behaviour of the machine is captured by the spec function
//! [`spec_step`]: one `step` call takes the machine from a state to exactly
//! the state `spec_step` describes.
use vstd::prelude::*;
use crate::eater::instructions::{I, IBuilder, Ldi, Lda, Sta, Add, Sub, Jmp, Jpz, Jpc, spec_decode};

verus! {

/// One of the machine's three flags.
#[derive(Clone, Copy, Debug, PartialEq, Eq, Structural)]
pub enum Flag {
    Carry,
    Halt,
    IllegalHalt,
}

/// The mathematical model of a machine state: the accumulator, the
/// instruction pointer, the three flags, the memory contents and the
/// sequence of bytes emitted so far on the output sink.
#[verifier::ext_equal]
pub ghost struct MachineView {
    pub a: u8,
    pub ip: u8,
    pub carry: bool,
    pub halt: bool,
    pub illegal_halt: bool,
    pub ram: Seq<u8>,
    pub out: Seq<u8>,
}

impl MachineView {
    /// The memory never outgrows the 8-bit address space: at most 256 bytes.
    pub open spec fn wf(self) -> bool {
        self.ram.len() <= 256
    }

    /// Neither terminal flag is set, so `step` still makes transitions.
    pub open spec fn running(self) -> bool {
        !self.halt && !self.illegal_halt
    }
}

/// The value of one flag in a machine state.
pub open spec fn spec_get(m: MachineView, flag: Flag) -> bool {
    match flag {
        Flag::Carry => m.carry,
        Flag::Halt => m.halt,
        Flag::IllegalHalt => m.illegal_halt,
    }
}

/// The state with one flag raised and everything else kept.
pub open spec fn spec_set(m: MachineView, flag: Flag) -> MachineView {
    match flag {
        Flag::Carry => MachineView { carry: true, ..m },
        Flag::Halt => MachineView { halt: true, ..m },
        Flag::IllegalHalt => MachineView { illegal_halt: true, ..m },
    }
}

/// The state with one flag cleared and everything else kept.
pub open spec fn spec_unset(m: MachineView, flag: Flag) -> MachineView {
    match flag {
        Flag::Carry => MachineView { carry: false, ..m },
        Flag::Halt => MachineView { halt: false, ..m },
        Flag::IllegalHalt => MachineView { illegal_halt: false, ..m },
    }
}

/// Reading memory: the byte at the address, or nothing when the address
/// lies past the current memory length.
pub open spec fn spec_read(ram: Seq<u8>, adr: u8) -> Option<u8> {
    if (adr as int) < ram.len() {
        Some(ram[adr as int])
    } else {
        None
    }
}

/// Writing memory: an in-range write updates one byte; a write past the
/// current length grows the memory to exactly `adr + 1` bytes, zero-filling
/// the gap.
pub open spec fn spec_write(ram: Seq<u8>, adr: u8, val: u8) -> Seq<u8> {
    if (adr as int) < ram.len() {
        ram.update(adr as int, val)
    } else {
        Seq::new(
            (adr + 1) as nat,
            |i: int|
                if i < ram.len() {
                    ram[i]
                } else if i == adr as int {
                    val
                } else {
                    0u8
                },
        )
    }
}

/// Eight-bit addition that wraps around at 256.
pub open spec fn spec_wrap_add(a: u8, b: u8) -> u8 {
    if a + b > 255 {
        (a + b - 256) as u8
    } else {
        (a + b) as u8
    }
}

/// Eight-bit subtraction that wraps around at 0.
pub open spec fn spec_wrap_sub(a: u8, b: u8) -> u8 {
    if a - b < 0 {
        (a - b + 256) as u8
    } else {
        (a - b) as u8
    }
}

/// The effect of executing one instruction on the machine state, not yet
/// including the move of the instruction pointer.
///
/// An out-of-range read during `Lda`, `Add` or `Sub` is not a failure: the
/// register update is skipped. `Add` and `Sub` clear the carry flag before
/// re-evaluating it, so a stale carry never survives them.
pub open spec fn spec_exec(i: I, m: MachineView) -> MachineView {
    match i {
        I::Nop(_) => m,
        I::Ldi(Ldi(v)) => MachineView { a: v, ..m },
        I::Lda(Lda(adr)) => match spec_read(m.ram, adr) {
            Some(v) => MachineView { a: v, ..m },
            None => m,
        },
        I::Sta(Sta(adr)) => MachineView { ram: spec_write(m.ram, adr, m.a), ..m },
        I::Add(Add(adr)) => match spec_read(m.ram, adr) {
            Some(v) => MachineView {
                a: spec_wrap_add(m.a, v),
                carry: m.a + v > 255,
                ..m
            },
            None => MachineView { carry: false, ..m },
        },
        I::Sub(Sub(adr)) => match spec_read(m.ram, adr) {
            Some(v) => MachineView {
                a: spec_wrap_sub(m.a, v),
                carry: m.a < v,
                ..m
            },
            None => MachineView { carry: false, ..m },
        },
        I::Jmp(_) => m,
        I::Jpz(_) => m,
        I::Jpc(_) => m,
        I::Out(_) => MachineView { out: m.out.push(m.a), ..m },
        I::Hlt(_) => MachineView { halt: true, ..m },
    }
}

/// The instruction pointer an instruction asks for next, computed on the
/// state left behind by its execute effect. A mathematical integer: bounds
/// against the memory length are checked by [`spec_step`].
pub open spec fn spec_next(i: I, m: MachineView) -> int {
    match i {
        I::Nop(_) => m.ip + 1,
        I::Ldi(_) => m.ip + 2,
        I::Lda(_) => m.ip + 2,
        I::Sta(_) => m.ip + 2,
        I::Add(_) => m.ip + 2,
        I::Sub(_) => m.ip + 2,
        I::Jmp(Jmp(t)) => t as int,
        I::Jpz(Jpz(t)) => if m.a == 0 {
            t as int
        } else {
            m.ip + 2
        },
        I::Jpc(Jpc(t)) => if m.carry {
            t as int
        } else {
            m.ip + 2
        },
        I::Out(_) => m.ip + 1,
        I::Hlt(_) => m.ip as int,
    }
}

/// The state with the illegal-halt flag raised and everything else kept.
pub open spec fn spec_illegal(m: MachineView) -> MachineView {
    MachineView { illegal_halt: true, ..m }
}

/// One transition of the machine's state machine.
///
/// A halted machine makes no transition. Otherwise the instruction at the
/// instruction pointer is decoded (a failed decode raises the illegal-halt
/// flag), its effect is applied, and unless that effect halted the machine
/// the next instruction pointer is committed — or, when it falls outside
/// memory, the illegal-halt flag is raised instead.
pub open spec fn spec_step(m: MachineView) -> MachineView {
    if m.halt || m.illegal_halt {
        m
    } else {
        match spec_decode(m.ram, m.ip as int) {
            None => spec_illegal(m),
            Some(i) => {
                let m1 = spec_exec(i, m);
                if m1.halt || m1.illegal_halt {
                    m1
                } else {
                    let n = spec_next(i, m1);
                    if n >= m1.ram.len() {
                        spec_illegal(m1)
                    } else {
                        MachineView { ip: n as u8, ..m1 }
                    }
                }
            },
        }
    }
}

/// The flat byte image of an instruction list: each instruction's encoding
/// in order.
pub open spec fn spec_assemble(program: Seq<I>) -> Seq<u8>
    decreases program.len(),
{
    if program.len() == 0 {
        Seq::empty()
    } else {
        spec_assemble(program.drop_last()) + crate::eater::instructions::spec_encode(program.last())
    }
}

/// The state a machine boots in: cleared registers and flags, the given
/// memory image, nothing emitted yet.
pub open spec fn spec_boot(ram: Seq<u8>) -> MachineView {
    MachineView {
        a: 0,
        ip: 0,
        carry: false,
        halt: false,
        illegal_halt: false,
        ram: ram,
        out: Seq::empty(),
    }
}

/// The machine: an 8-bit accumulator and instruction pointer, three flags,
/// a growable byte memory capped at 256 bytes, and the trace of bytes the
/// `Out` instruction has emitted on the output sink.
pub struct Cpu {
    pub(super) a: u8,
    pub(super) ip: u8,
    pub(super) carry: bool,
    pub(super) halt: bool,
    pub(super) illegal_halt: bool,
    pub(super) ram: Vec<u8>,
    pub(super) out: Vec<u8>,
}

impl View for Cpu {
    type V = MachineView;

    closed spec fn view(&self) -> MachineView {
        MachineView {
            a: self.a,
            ip: self.ip,
            carry: self.carry,
            halt: self.halt,
            illegal_halt: self.illegal_halt,
            ram: self.ram@,
            out: self.out@,
        }
    }
}

impl Cpu {
    /// The memory stays within the 8-bit address space.
    pub open spec fn wf(&self) -> bool {
        self@.wf()
    }

    /// Create a new machine whose memory is the assembled program followed
    /// by the given data tail, with registers and flags cleared.
    pub fn from_asm(program: Vec<I>, data: Vec<u8>) -> (r: Cpu)
        requires
            spec_assemble(program@).len() + data@.len() <= 256,
        ensures
            r@ == spec_boot(spec_assemble(program@) + data@),
            r.wf(),
    {
        let mut ram: Vec<u8> = Vec::new();
        let mut idx: usize = 0;
        while idx < program.len()
            invariant
                idx <= program.len(),
                ram@ == spec_assemble(program@.take(idx as int)),
            decreases program.len() - idx,
        {
            let mut bytes = program[idx].assemble();
            ram.append(&mut bytes);
            proof {
                assert(program@.take(idx as int + 1).drop_last() =~= program@.take(idx as int));
                assert(program@.take(idx as int + 1).last() == program@[idx as int]);
            }
            idx += 1;
        }
        proof {
            assert(program@.take(program@.len() as int) =~= program@);
        }
        let mut data = data;
        let ghost data_view = data@;
        ram.append(&mut data);
        let r = Cpu {
            a: 0,
            ip: 0,
            carry: false,
            halt: false,
            illegal_halt: false,
            ram,
            out: Vec::new(),
        };
        proof {
            assert(r@ =~= spec_boot(spec_assemble(program@) + data_view));
        }
        r
    }

    /// The contents of the accumulator.
    pub fn a(&self) -> (r: u8)
        ensures
            r == self@.a,
    {
        self.a
    }

    /// The value of the given flag.
    pub fn get(&self, flag: Flag) -> (r: bool)
        ensures
            r == spec_get(self@, flag),
    {
        match flag {
            Flag::Carry => self.carry,
            Flag::Halt => self.halt,
            Flag::IllegalHalt => self.illegal_halt,
        }
    }

    /// Set the instruction pointer, bypassing the normal advance rule.
    pub fn goto(&mut self, ip: u8)
        ensures
            final(self)@ == (MachineView { ip: ip, ..old(self)@ }),
    {
        self.ip = ip;
    }

    /// The contents of the instruction pointer.
    pub fn ip(&self) -> (r: u8)
        ensures
            r == self@.ip,
    {
        self.ip
    }

    /// The number of bytes the memory currently holds.
    pub fn len(&self) -> (r: usize)
        ensures
            r == self@.ram.len(),
    {
        self.ram.len()
    }

    /// The byte at the given address, or `None` when the address lies past
    /// the current memory length.
    pub fn read(&mut self, adr: u8) -> (r: Option<u8>)
        ensures
            final(self)@ == old(self)@,
            r == spec_read(old(self)@.ram, adr),
    {
        if adr as usize >= self.ram.len() {
            return None;
        }
        Some(self.ram[adr as usize])
    }

    /// A memory slice of up to `len` bytes starting at `adr`, clamped to
    /// the current memory length.
    pub fn read_bytes(&self, adr: u8, len: u8) -> (r: &[u8])
        ensures
            r@ == self@.ram.subrange(
                if adr as int <= self@.ram.len() { adr as int } else { self@.ram.len() as int },
                if adr + len <= self@.ram.len() { adr + len } else { self@.ram.len() as int },
            ),
    {
        let ram_len: usize = self.ram.len();
        let start: usize = if adr as usize <= ram_len {
            adr as usize
        } else {
            ram_len
        };
        let end: usize = if adr as usize + len as usize <= ram_len {
            adr as usize + len as usize
        } else {
            ram_len
        };
        vstd::slice::slice_subrange(self.ram.as_slice(), start, end)
    }

    /// Raise the given flag.
    pub(super) fn set(&mut self, flag: Flag)
        ensures
            final(self)@ == spec_set(old(self)@, flag),
    {
        match flag {
            Flag::Carry => self.carry = true,
            Flag::Halt => self.halt = true,
            Flag::IllegalHalt => self.illegal_halt = true,
        }
    }

    /// Clear the given flag.
    pub(super) fn unset(&mut self, flag: Flag)
        ensures
            final(self)@ == spec_unset(old(self)@, flag),
    {
        match flag {
            Flag::Carry => self.carry = false,
            Flag::Halt => self.halt = false,
            Flag::IllegalHalt => self.illegal_halt = false,
        }
    }

    /// The trace of bytes emitted on the output sink so far, oldest first.
    pub fn out(&self) -> (r: &Vec<u8>)
        ensures
            r@ == self@.out,
    {
        &self.out
    }

    /// Execute the next instruction, as [`spec_step`] describes. A halted
    /// or illegally halted machine stays exactly as it is.
    pub fn step(&mut self)
        requires
            old(self).wf(),
        ensures
            final(self)@ == spec_step(old(self)@),
            final(self).wf(),
    {
        proof {
            lemma_step_preserves_wf(self@);
        }
        if self.get(Flag::Halt) || self.get(Flag::IllegalHalt) {
            return;
        }
        if let Some(instruction) = decode(self) {
            instruction.execute(self);
            if self.get(Flag::Halt) || self.get(Flag::IllegalHalt) {
                return;
            }
            let next_ip: usize = instruction.next(self);
            if next_ip >= self.ram.len() {
                self.set(Flag::IllegalHalt);
                proof {
                    assert(self@ =~= spec_step(old(self)@));
                }
            } else {
                proof {
                    assert(next_ip < 256);
                }
                self.ip = next_ip as u8;
                proof {
                    assert(self@ =~= spec_step(old(self)@));
                }
            }
        } else {
            self.set(Flag::IllegalHalt);
            proof {
                assert(self@ =~= spec_step(old(self)@));
            }
        }
    }

    /// Write a byte to the given address, growing the memory and
    /// zero-filling the gap when the address lies past the current length.
    pub fn write(&mut self, adr: u8, val: u8)
        ensures
            final(self)@ == (MachineView { ram: spec_write(old(self)@.ram, adr, val), ..old(self)@ }),
            old(self).wf() ==> final(self).wf(),
    {
        if adr as usize >= self.ram.len() {
            while self.ram.len() < adr as usize + 1
                invariant
                    adr as int >= old(self)@.ram.len(),
                    self@.ram.len() <= adr as int + 1,
                    self@.ram.len() >= old(self)@.ram.len(),
                    self@.ram == old(self)@.ram + Seq::new(
                        (self@.ram.len() - old(self)@.ram.len()) as nat,
                        |i: int| 0u8,
                    ),
                    self@.a == old(self)@.a,
                    self@.ip == old(self)@.ip,
                    self@.carry == old(self)@.carry,
                    self@.halt == old(self)@.halt,
                    self@.illegal_halt == old(self)@.illegal_halt,
                    self@.out == old(self)@.out,
                decreases adr as int + 1 - self@.ram.len(),
            {
                self.ram.push(0);
                proof {
                    assert(self@.ram =~= old(self)@.ram + Seq::new(
                        (self@.ram.len() - old(self)@.ram.len()) as nat,
                        |i: int| 0u8,
                    ));
                }
            }
        }
        self.ram.set(adr as usize, val);
        proof {
            assert(self@.ram =~= spec_write(old(self)@.ram, adr, val));
            assert(self@ =~= (MachineView { ram: spec_write(old(self)@.ram, adr, val), ..old(self)@ }));
        }
    }
}

impl I {
    /// Apply the instruction's execute effect to the machine: registers,
    /// flags, memory or the output trace change as [`spec_exec`] describes;
    /// the instruction pointer is not touched here.
    pub fn execute(&self, cpu: &mut Cpu)
        ensures
            final(cpu)@ == spec_exec(*self, old(cpu)@),
    {
        match self {
            I::Nop(_) => {},
            I::Ldi(Ldi(v)) => {
                cpu.a = *v;
            },
            I::Lda(Lda(adr)) => {
                if let Some(a) = cpu.read(*adr) {
                    cpu.a = a;
                }
            },
            I::Sta(Sta(adr)) => {
                let a: u8 = cpu.a;
                cpu.write(*adr, a);
            },
            I::Add(Add(adr)) => {
                cpu.unset(Flag::Carry);
                if let Some(operand) = cpu.read(*adr) {
                    if cpu.a > 0xFF - operand {
                        cpu.set(Flag::Carry);
                    }
                    cpu.a = cpu.a.wrapping_add(operand);
                }
            },
            I::Sub(Sub(adr)) => {
                cpu.unset(Flag::Carry);
                if let Some(operand) = cpu.read(*adr) {
                    if cpu.a < operand {
                        cpu.set(Flag::Carry);
                    }
                    cpu.a = cpu.a.wrapping_sub(operand);
                }
            },
            I::Jmp(_) => {},
            I::Jpz(_) => {},
            I::Jpc(_) => {},
            I::Out(_) => {
                let a: u8 = cpu.a;
                cpu.out.push(a);
            },
            I::Hlt(_) => {
                cpu.set(Flag::Halt);
            },
        }
        proof {
            assert(cpu@ =~= spec_exec(*self, old(cpu)@));
        }
    }

    /// The instruction pointer this instruction asks for next, computed on
    /// the machine state its execute effect left behind. Returned as a
    /// `usize` so that an advance past address 255 can still be compared
    /// against the memory length instead of wrapping.
    pub fn next(&self, cpu: &Cpu) -> (r: usize)
        ensures
            r == spec_next(*self, cpu@),
    {
        match self {
            I::Nop(_) => cpu.ip as usize + 1,
            I::Ldi(_) => cpu.ip as usize + 2,
            I::Lda(_) => cpu.ip as usize + 2,
            I::Sta(_) => cpu.ip as usize + 2,
            I::Add(_) => cpu.ip as usize + 2,
            I::Sub(_) => cpu.ip as usize + 2,
            I::Jmp(Jmp(t)) => *t as usize,
            I::Jpz(Jpz(t)) => {
                if cpu.a == 0 {
                    *t as usize
                } else {
                    cpu.ip as usize + 2
                }
            },
            I::Jpc(Jpc(t)) => {
                if cpu.get(Flag::Carry) {
                    *t as usize
                } else {
                    cpu.ip as usize + 2
                }
            },
            I::Out(_) => cpu.ip as usize + 1,
            I::Hlt(_) => cpu.ip as usize,
        }
    }
}

/// Decode the instruction at the instruction pointer: the opcode byte, and
/// the operand byte for any instruction that carries one. `None` when the
/// pointer lies outside memory, the opcode is unassigned, or the operand
/// byte is missing.
fn decode(cpu: &mut Cpu) -> (r: Option<I>)
    requires
        old(cpu).wf(),
    ensures
        final(cpu)@ == old(cpu)@,
        r == spec_decode(old(cpu)@.ram, old(cpu)@.ip as int),
{
    let ip: u8 = cpu.ip;
    if let Some(opcode) = cpu.read(ip) {
        match I::from_opcode(opcode) {
            IBuilder::Complete(instruction) => Some(instruction),
            IBuilder::NeedsData(incomplete) => {
                if ip == 255 {
                    // the operand byte would sit at address 256, past the
                    // largest memory the machine can have
                    None
                } else {
                    if let Some(d) = cpu.read(ip + 1) {
                        Some(incomplete.with_data(d))
                    } else {
                        None
                    }
                }
            },
            IBuilder::Invalid => None,
        }
    } else {
        None
    }
}

/// A transition never grows the memory past 256 bytes: only a store can
/// grow it, and a store's address fits in eight bits.
pub proof fn lemma_step_preserves_wf(m: MachineView)
    requires
        m.wf(),
    ensures
        spec_step(m).wf(),
{
    if m.running() {
        match spec_decode(m.ram, m.ip as int) {
            Some(i) => {
                assert(spec_exec(i, m).wf());
            },
            None => {},
        }
    }
}

/// A machine that is still running after a transition has its instruction
/// pointer inside memory: `step` only commits a next pointer it has
/// checked against the memory length.
pub proof fn lemma_running_ip_in_bounds(m: MachineView)
    requires
        m.running(),
    ensures
        spec_step(m).running() ==> (spec_step(m).ip as int) < spec_step(m).ram.len(),
{
}

/// Once either terminal flag is set, `step` changes nothing: the program
/// counter, accumulator, memory, flags and output trace all stay as they
/// are, over any number of transitions.
pub proof fn lemma_halted_frozen(m: MachineView)
    requires
        m.halt || m.illegal_halt,
    ensures
        spec_step(m) == m,
{
}

/// The carry flag after an `Add` is set exactly when the sum overflowed
/// eight bits, and after a `Sub` exactly when the subtraction borrowed —
/// regardless of the carry's value before the instruction executed. When
/// the operand is readable, the accumulator wraps around accordingly.
pub proof fn lemma_arith_carry(m: MachineView, adr: u8)
    ensures
        spec_exec(I::Add(Add(adr)), m).carry <==> ((adr as int) < m.ram.len()
            && m.a + m.ram[adr as int] > 255),
        spec_exec(I::Sub(Sub(adr)), m).carry <==> ((adr as int) < m.ram.len()
            && m.a < m.ram[adr as int]),
        (adr as int) < m.ram.len() ==> spec_exec(I::Add(Add(adr)), m).a == spec_wrap_add(
            m.a,
            m.ram[adr as int],
        ),
        (adr as int) < m.ram.len() ==> spec_exec(I::Sub(Sub(adr)), m).a == spec_wrap_sub(
            m.a,
            m.ram[adr as int],
        ),
{
}

/// An unassigned opcode (9 through 13) at the instruction pointer raises
/// the illegal-halt flag on that transition and leaves everything else —
/// accumulator, memory, instruction pointer, carry, output — unmodified.
pub proof fn lemma_invalid_opcode_freezes(m: MachineView)
    requires
        m.running(),
        (m.ip as int) < m.ram.len(),
        9 <= m.ram[m.ip as int] <= 13,
    ensures
        spec_step(m) == spec_illegal(m),
{
}

/// A jump whose taken target lies at or past the end of memory raises the
/// illegal-halt flag instead of moving the instruction pointer.
pub proof fn lemma_jump_out_of_bounds(m: MachineView, t: u8)
    requires
        m.running(),
        spec_decode(m.ram, m.ip as int) == Some(I::Jmp(Jmp(t)))
            || (spec_decode(m.ram, m.ip as int) == Some(I::Jpz(Jpz(t))) && m.a == 0)
            || (spec_decode(m.ram, m.ip as int) == Some(I::Jpc(Jpc(t))) && m.carry),
        t as int >= m.ram.len(),
    ensures
        spec_step(m) == spec_illegal(m),
{
}

/// Executing `Hlt` sets the halt flag and leaves the instruction pointer
/// where it was.
pub proof fn lemma_hlt_freezes_ip(m: MachineView)
    requires
        m.running(),
        spec_decode(m.ram, m.ip as int) == Some(I::Hlt(crate::eater::instructions::Hlt)),
    ensures
        spec_step(m) == (MachineView { halt: true, ..m }),
{
}

/// A write to an address at or past the current memory length grows the
/// memory to exactly `adr + 1` bytes: old contents kept, the gap zero-
/// filled, the written byte at the end.
pub proof fn lemma_write_grows(ram: Seq<u8>, adr: u8, val: u8)
    requires
        adr as int >= ram.len(),
    ensures
        spec_write(ram, adr, val).len() == adr as int + 1,
        forall|i: int| 0 <= i < ram.len() ==> spec_write(ram, adr, val)[i] == ram[i],
        forall|i: int| ram.len() <= i < adr as int ==> spec_write(ram, adr, val)[i] == 0u8,
        spec_write(ram, adr, val)[adr as int] == val,
{
}

} // verus!
