//! The instruction set: a closed tagged union of eleven instruction kinds,
//! each either operand-less or carrying a single byte, with encoding to
//! bytes and decoding from an opcode byte plus an optional operand byte.
use vstd::prelude::*;

verus! {

/// No operation.
#[derive(Clone, Copy, Debug, PartialEq, Eq, Structural)]
pub struct Nop;

/// Load an immediate value into the accumulator.
#[derive(Clone, Copy, Debug, PartialEq, Eq, Structural)]
pub struct Ldi(pub u8);

/// Load the byte at an address into the accumulator.
#[derive(Clone, Copy, Debug, PartialEq, Eq, Structural)]
pub struct Lda(pub u8);

/// Store the accumulator at an address.
#[derive(Clone, Copy, Debug, PartialEq, Eq, Structural)]
pub struct Sta(pub u8);

/// Add the byte at an address to the accumulator.
#[derive(Clone, Copy, Debug, PartialEq, Eq, Structural)]
pub struct Add(pub u8);

/// Subtract the byte at an address from the accumulator.
#[derive(Clone, Copy, Debug, PartialEq, Eq, Structural)]
pub struct Sub(pub u8);

/// Jump to an address unconditionally.
#[derive(Clone, Copy, Debug, PartialEq, Eq, Structural)]
pub struct Jmp(pub u8);

/// Jump to an address if the accumulator is zero.
#[derive(Clone, Copy, Debug, PartialEq, Eq, Structural)]
pub struct Jpz(pub u8);

/// Jump to an address if the carry flag is set.
#[derive(Clone, Copy, Debug, PartialEq, Eq, Structural)]
pub struct Jpc(pub u8);

/// Emit the accumulator on the output sink.
#[derive(Clone, Copy, Debug, PartialEq, Eq, Structural)]
pub struct Out;

/// Halt the machine.
#[derive(Clone, Copy, Debug, PartialEq, Eq, Structural)]
pub struct Hlt;

/// An instruction: one of the eleven kinds above.
#[derive(Clone, Copy, Debug, PartialEq, Eq, Structural)]
pub enum I {
    Nop(Nop),
    Ldi(Ldi),
    Lda(Lda),
    Sta(Sta),
    Add(Add),
    Sub(Sub),
    Jmp(Jmp),
    Jpz(Jpz),
    Jpc(Jpc),
    Out(Out),
    Hlt(Hlt),
}

/// The opcode byte of an instruction.
pub open spec fn spec_opcode(i: I) -> u8 {
    match i {
        I::Nop(_) => 0,
        I::Ldi(_) => 1,
        I::Lda(_) => 2,
        I::Sta(_) => 3,
        I::Add(_) => 4,
        I::Sub(_) => 5,
        I::Jmp(_) => 6,
        I::Jpz(_) => 7,
        I::Jpc(_) => 8,
        I::Out(_) => 14,
        I::Hlt(_) => 15,
    }
}

/// The operand byte an instruction carries, if it carries one.
pub open spec fn spec_operand(i: I) -> Option<u8> {
    match i {
        I::Nop(_) => None,
        I::Ldi(Ldi(d)) => Some(d),
        I::Lda(Lda(d)) => Some(d),
        I::Sta(Sta(d)) => Some(d),
        I::Add(Add(d)) => Some(d),
        I::Sub(Sub(d)) => Some(d),
        I::Jmp(Jmp(d)) => Some(d),
        I::Jpz(Jpz(d)) => Some(d),
        I::Jpc(Jpc(d)) => Some(d),
        I::Out(_) => None,
        I::Hlt(_) => None,
    }
}

/// The byte encoding of an instruction: the opcode byte, followed by the
/// operand byte for any instruction that carries one.
pub open spec fn spec_encode(i: I) -> Seq<u8> {
    match spec_operand(i) {
        Some(d) => seq![spec_opcode(i), d],
        None => seq![spec_opcode(i)],
    }
}

/// How many bytes the encoding of an instruction takes: one or two.
pub open spec fn spec_encoded_len(i: I) -> int {
    spec_encode(i).len() as int
}

/// The result of mapping an opcode byte to an instruction template: either
/// a complete instruction, an incomplete one awaiting its operand byte, or
/// an invalid-opcode signal.
#[derive(Clone, Copy, Debug, PartialEq, Eq, Structural)]
pub enum IBuilder {
    Invalid,
    Complete(I),
    NeedsData(IWithoutData),
}

/// A two-byte instruction whose opcode byte has been read but whose operand
/// byte is still pending.
#[derive(Clone, Copy, Debug, PartialEq, Eq, Structural)]
pub struct IWithoutData(pub I);

/// The template an opcode byte maps to. Opcodes 9 through 13 are unassigned
/// and map to `Invalid`.
pub open spec fn spec_builder(opcode: u8) -> IBuilder {
    if opcode == 0 {
        IBuilder::Complete(I::Nop(Nop))
    } else if opcode == 1 {
        IBuilder::NeedsData(IWithoutData(I::Ldi(Ldi(0))))
    } else if opcode == 2 {
        IBuilder::NeedsData(IWithoutData(I::Lda(Lda(0))))
    } else if opcode == 3 {
        IBuilder::NeedsData(IWithoutData(I::Sta(Sta(0))))
    } else if opcode == 4 {
        IBuilder::NeedsData(IWithoutData(I::Add(Add(0))))
    } else if opcode == 5 {
        IBuilder::NeedsData(IWithoutData(I::Sub(Sub(0))))
    } else if opcode == 6 {
        IBuilder::NeedsData(IWithoutData(I::Jmp(Jmp(0))))
    } else if opcode == 7 {
        IBuilder::NeedsData(IWithoutData(I::Jpz(Jpz(0))))
    } else if opcode == 8 {
        IBuilder::NeedsData(IWithoutData(I::Jpc(Jpc(0))))
    } else if opcode == 14 {
        IBuilder::Complete(I::Out(Out))
    } else if opcode == 15 {
        IBuilder::Complete(I::Hlt(Hlt))
    } else {
        IBuilder::Invalid
    }
}

/// An incomplete instruction completed with its operand byte. Kinds that
/// carry no operand are returned unchanged.
pub open spec fn spec_with_data(i: I, data: u8) -> I {
    match i {
        I::Ldi(_) => I::Ldi(Ldi(data)),
        I::Lda(_) => I::Lda(Lda(data)),
        I::Sta(_) => I::Sta(Sta(data)),
        I::Add(_) => I::Add(Add(data)),
        I::Sub(_) => I::Sub(Sub(data)),
        I::Jmp(_) => I::Jmp(Jmp(data)),
        I::Jpz(_) => I::Jpz(Jpz(data)),
        I::Jpc(_) => I::Jpc(Jpc(data)),
        _ => i,
    }
}

/// Decoding at an offset of a byte sequence: read the opcode byte, map it
/// to a template, and read the operand byte if the template needs one.
/// `None` when no byte exists at the offset, the opcode is unassigned, or
/// a needed operand byte lies outside the sequence.
pub open spec fn spec_decode(mem: Seq<u8>, at: int) -> Option<I> {
    if 0 <= at < mem.len() {
        match spec_builder(mem[at]) {
            IBuilder::Invalid => None,
            IBuilder::Complete(i) => Some(i),
            IBuilder::NeedsData(w) => if at + 1 < mem.len() {
                Some(spec_with_data(w.0, mem[at + 1]))
            } else {
                None
            },
        }
    } else {
        None
    }
}

/// Encoding an instruction and then decoding those bytes from offset zero
/// yields the instruction back, for every kind.
pub proof fn lemma_encode_decode(i: I)
    ensures
        spec_decode(spec_encode(i), 0) == Some(i),
{
}

/// Decoding an encoded instruction succeeds even when further bytes follow
/// the encoding.
pub proof fn lemma_encode_decode_prefix(i: I, rest: Seq<u8>)
    ensures
        spec_decode(spec_encode(i) + rest, 0) == Some(i),
{
    let mem = spec_encode(i) + rest;
    assert(mem[0] == spec_opcode(i));
    if spec_operand(i) is Some {
        assert(mem[1] == spec_operand(i)->0);
    }
}

/// A successful decode reads back exactly the instruction's encoding: the
/// decoded bytes lie within the sequence and equal `spec_encode` of the
/// result.
pub proof fn lemma_decode_encode(mem: Seq<u8>, at: int, i: I)
    requires
        spec_decode(mem, at) == Some(i),
    ensures
        at + spec_encoded_len(i) <= mem.len(),
        mem.subrange(at, at + spec_encoded_len(i)) == spec_encode(i),
        mem[at] == spec_opcode(i),
{
    match spec_builder(mem[at]) {
        IBuilder::Complete(_) => {
            assert(mem.subrange(at, at + 1) =~= seq![mem[at]]);
        },
        IBuilder::NeedsData(_) => {
            assert(mem.subrange(at, at + 2) =~= seq![mem[at], mem[at + 1]]);
        },
        IBuilder::Invalid => {},
    }
}

impl I {
    /// No operation; only advances the program counter.
    pub fn nop() -> (r: Self)
        ensures
            r == I::Nop(Nop),
    {
        I::Nop(Nop)
    }

    /// Load the immediate value carried by the instruction into the accumulator.
    pub fn ldi(value: u8) -> (r: Self)
        ensures
            r == I::Ldi(Ldi(value)),
    {
        I::Ldi(Ldi(value))
    }

    /// Load the byte at the carried address into the accumulator.
    pub fn lda(address: u8) -> (r: Self)
        ensures
            r == I::Lda(Lda(address)),
    {
        I::Lda(Lda(address))
    }

    /// Store the accumulator at the carried address.
    pub fn sta(address: u8) -> (r: Self)
        ensures
            r == I::Sta(Sta(address)),
    {
        I::Sta(Sta(address))
    }

    /// Add the byte at the carried address to the accumulator.
    pub fn add(address: u8) -> (r: Self)
        ensures
            r == I::Add(Add(address)),
    {
        I::Add(Add(address))
    }

    /// Subtract the byte at the carried address from the accumulator.
    pub fn sub(address: u8) -> (r: Self)
        ensures
            r == I::Sub(Sub(address)),
    {
        I::Sub(Sub(address))
    }

    /// Jump to the carried address unconditionally.
    pub fn jmp(address: u8) -> (r: Self)
        ensures
            r == I::Jmp(Jmp(address)),
    {
        I::Jmp(Jmp(address))
    }

    /// Jump to the carried address if the accumulator is zero.
    pub fn jpz(address: u8) -> (r: Self)
        ensures
            r == I::Jpz(Jpz(address)),
    {
        I::Jpz(Jpz(address))
    }

    /// Jump to the carried address if the carry flag is set.
    pub fn jpc(address: u8) -> (r: Self)
        ensures
            r == I::Jpc(Jpc(address)),
    {
        I::Jpc(Jpc(address))
    }

    /// Emit the accumulator on the output sink.
    pub fn out() -> (r: Self)
        ensures
            r == I::Out(Out),
    {
        I::Out(Out)
    }

    /// Halt the machine.
    pub fn hlt() -> (r: Self)
        ensures
            r == I::Hlt(Hlt),
    {
        I::Hlt(Hlt)
    }

    /// Map an opcode byte to its instruction template.
    pub fn from_opcode(opcode: u8) -> (r: IBuilder)
        ensures
            r == spec_builder(opcode),
    {
        if opcode == Nop::opcode() {
            IBuilder::Complete(I::Nop(Nop))
        } else if opcode == Ldi::opcode() {
            IBuilder::NeedsData(IWithoutData(I::Ldi(Ldi(0))))
        } else if opcode == Lda::opcode() {
            IBuilder::NeedsData(IWithoutData(I::Lda(Lda(0))))
        } else if opcode == Sta::opcode() {
            IBuilder::NeedsData(IWithoutData(I::Sta(Sta(0))))
        } else if opcode == Add::opcode() {
            IBuilder::NeedsData(IWithoutData(I::Add(Add(0))))
        } else if opcode == Sub::opcode() {
            IBuilder::NeedsData(IWithoutData(I::Sub(Sub(0))))
        } else if opcode == Jmp::opcode() {
            IBuilder::NeedsData(IWithoutData(I::Jmp(Jmp(0))))
        } else if opcode == Jpz::opcode() {
            IBuilder::NeedsData(IWithoutData(I::Jpz(Jpz(0))))
        } else if opcode == Jpc::opcode() {
            IBuilder::NeedsData(IWithoutData(I::Jpc(Jpc(0))))
        } else if opcode == Out::opcode() {
            IBuilder::Complete(I::Out(Out))
        } else if opcode == Hlt::opcode() {
            IBuilder::Complete(I::Hlt(Hlt))
        } else {
            IBuilder::Invalid
        }
    }

    /// The byte encoding of the instruction.
    pub fn assemble(&self) -> (r: Vec<u8>)
        ensures
            r@ == spec_encode(*self),
    {
        let mut r: Vec<u8> = Vec::new();
        match self {
            I::Nop(_) => {
                r.push(0);
            },
            I::Ldi(Ldi(d)) => {
                r.push(1);
                r.push(*d);
            },
            I::Lda(Lda(d)) => {
                r.push(2);
                r.push(*d);
            },
            I::Sta(Sta(d)) => {
                r.push(3);
                r.push(*d);
            },
            I::Add(Add(d)) => {
                r.push(4);
                r.push(*d);
            },
            I::Sub(Sub(d)) => {
                r.push(5);
                r.push(*d);
            },
            I::Jmp(Jmp(d)) => {
                r.push(6);
                r.push(*d);
            },
            I::Jpz(Jpz(d)) => {
                r.push(7);
                r.push(*d);
            },
            I::Jpc(Jpc(d)) => {
                r.push(8);
                r.push(*d);
            },
            I::Out(_) => {
                r.push(14);
            },
            I::Hlt(_) => {
                r.push(15);
            },
        }
        proof {
            assert(r@ =~= spec_encode(*self));
        }
        r
    }
}

impl IWithoutData {
    /// Complete the pending instruction with its operand byte.
    pub fn with_data(self, data: u8) -> (r: I)
        ensures
            r == spec_with_data(self.0, data),
    {
        match self.0 {
            I::Ldi(_) => I::Ldi(Ldi(data)),
            I::Lda(_) => I::Lda(Lda(data)),
            I::Sta(_) => I::Sta(Sta(data)),
            I::Add(_) => I::Add(Add(data)),
            I::Sub(_) => I::Sub(Sub(data)),
            I::Jmp(_) => I::Jmp(Jmp(data)),
            I::Jpz(_) => I::Jpz(Jpz(data)),
            I::Jpc(_) => I::Jpc(Jpc(data)),
            instr => instr,
        }
    }
}

impl Nop {
    /// The opcode byte of `Nop`.
    pub fn opcode() -> (r: u8)
        ensures
            r == 0,
    {
        0
    }
}

impl Ldi {
    /// The opcode byte of `Ldi`.
    pub fn opcode() -> (r: u8)
        ensures
            r == 1,
    {
        1
    }
}

impl Lda {
    /// The opcode byte of `Lda`.
    pub fn opcode() -> (r: u8)
        ensures
            r == 2,
    {
        2
    }
}

impl Sta {
    /// The opcode byte of `Sta`.
    pub fn opcode() -> (r: u8)
        ensures
            r == 3,
    {
        3
    }
}

impl Add {
    /// The opcode byte of `Add`.
    pub fn opcode() -> (r: u8)
        ensures
            r == 4,
    {
        4
    }
}

impl Sub {
    /// The opcode byte of `Sub`.
    pub fn opcode() -> (r: u8)
        ensures
            r == 5,
    {
        5
    }
}

impl Jmp {
    /// The opcode byte of `Jmp`.
    pub fn opcode() -> (r: u8)
        ensures
            r == 6,
    {
        6
    }
}

impl Jpz {
    /// The opcode byte of `Jpz`.
    pub fn opcode() -> (r: u8)
        ensures
            r == 7,
    {
        7
    }
}

impl Jpc {
    /// The opcode byte of `Jpc`.
    pub fn opcode() -> (r: u8)
        ensures
            r == 8,
    {
        8
    }
}

impl Out {
    /// The opcode byte of `Out`.
    pub fn opcode() -> (r: u8)
        ensures
            r == 14,
    {
        14
    }
}

impl Hlt {
    /// The opcode byte of `Hlt`.
    pub fn opcode() -> (r: u8)
        ensures
            r == 15,
    {
        15
    }
}

} // verus!
