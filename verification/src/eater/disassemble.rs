//! Control-flow-aware disassembly: a byte buffer is partitioned into
//! alternating data and instruction segments by simulating control flow
//! from offset zero and following jump targets, without executing any
//! side effects.
use vstd::prelude::*;
use crate::eater::instructions::{
    I, IBuilder, Jmp, Jpz, Jpc, spec_decode, spec_encode, spec_encoded_len,
};

verus! {

/// One segment of a disassembled buffer: either a run of bytes not proven
/// reachable from the entry point, or a decoded instruction whose bytes
/// are reachable.
pub enum Disassembly {
    Data { data: Vec<u8>, len: usize, offset: usize },
    Instruction { instruction: I, len: usize, offset: usize },
}

/// The offset of a segment within the buffer it was cut from.
pub open spec fn seg_offset(d: Disassembly) -> int {
    match d {
        Disassembly::Data { offset, .. } => offset as int,
        Disassembly::Instruction { offset, .. } => offset as int,
    }
}

/// The number of buffer bytes a segment covers.
pub open spec fn seg_len(d: Disassembly) -> int {
    match d {
        Disassembly::Data { len, .. } => len as int,
        Disassembly::Instruction { len, .. } => len as int,
    }
}

/// The offset just past a segment.
pub open spec fn seg_end(d: Disassembly) -> int {
    seg_offset(d) + seg_len(d)
}

/// What a single segment claims about the buffer it was cut from.
///
/// A data segment carries a copy of exactly the bytes it covers. An
/// instruction segment covers exactly the encoding of its instruction,
/// and decoding the buffer at its offset yields that instruction.
pub open spec fn seg_wf(d: Disassembly, bytes: Seq<u8>) -> bool {
    match d {
        Disassembly::Data { data, len, offset } => {
            &&& len > 0
            &&& offset + len <= bytes.len()
            &&& data@ == bytes.subrange(offset as int, offset + len)
        },
        Disassembly::Instruction { instruction, len, offset } => {
            &&& offset + len <= bytes.len()
            &&& spec_decode(bytes, offset as int) == Some(instruction)
            &&& len == spec_encoded_len(instruction)
            &&& bytes.subrange(offset as int, offset + len) == spec_encode(instruction)
        },
    }
}

/// The segments tile an interval of the given total length exactly once:
/// every segment is non-empty, the first starts at offset zero, each
/// starts where its predecessor ends, and the last ends at the total.
/// An empty tiling is only allowed for an empty interval.
pub open spec fn segs_chain(segs: Seq<Disassembly>, total: int) -> bool {
    &&& forall|k: int| 0 <= k < segs.len() ==> seg_len(#[trigger] segs[k]) > 0
    &&& (segs.len() > 0 ==> seg_offset(segs[0]) == 0)
    &&& forall|k: int|
        1 <= k < segs.len() ==> seg_offset(#[trigger] segs[k]) == seg_end(segs[k - 1])
    &&& (segs.len() > 0 ==> seg_end(segs.last()) == total)
    &&& (total > 0 ==> segs.len() > 0)
}

/// The well-formed disassembly of a buffer: a tiling of the whole buffer
/// whose every segment is truthful about the bytes it covers.
pub open spec fn segs_wf(segs: Seq<Disassembly>, bytes: Seq<u8>) -> bool {
    &&& segs_chain(segs, bytes.len() as int)
    &&& forall|k: int| 0 <= k < segs.len() ==> seg_wf(#[trigger] segs[k], bytes)
}

/// How many bytes of the buffer are still classified as data.
pub open spec fn data_bytes(segs: Seq<Disassembly>) -> int
    decreases segs.len(),
{
    if segs.len() == 0 {
        0
    } else {
        data_contrib(segs.first()) + data_bytes(segs.drop_first())
    }
}

/// A segment's contribution to the count of data bytes.
pub open spec fn data_contrib(d: Disassembly) -> int {
    if d is Data {
        seg_len(d)
    } else {
        0
    }
}

proof fn lemma_data_bytes_nonneg(segs: Seq<Disassembly>)
    ensures
        data_bytes(segs) >= 0,
    decreases segs.len(),
{
    if segs.len() > 0 {
        lemma_data_bytes_nonneg(segs.drop_first());
    }
}

proof fn lemma_data_bytes_update(segs: Seq<Disassembly>, k: int, d: Disassembly)
    requires
        0 <= k < segs.len(),
    ensures
        data_bytes(segs.update(k, d)) == data_bytes(segs) - data_contrib(segs[k])
            + data_contrib(d),
    decreases segs.len(),
{
    if k == 0 {
        assert(segs.update(0, d).drop_first() =~= segs.drop_first());
        assert(segs.update(0, d).first() == d);
    } else {
        assert(segs.update(k, d).drop_first() =~= segs.drop_first().update(k - 1, d));
        assert(segs.update(k, d).first() == segs.first());
        lemma_data_bytes_update(segs.drop_first(), k - 1, d);
    }
}

proof fn lemma_data_bytes_insert(segs: Seq<Disassembly>, k: int, d: Disassembly)
    requires
        0 <= k <= segs.len(),
    ensures
        data_bytes(segs.insert(k, d)) == data_bytes(segs) + data_contrib(d),
    decreases segs.len(),
{
    segs.insert_ensures(k, d);
    if k == 0 {
        assert(segs.insert(0, d).drop_first() =~= segs);
        assert(segs.insert(0, d).first() == d);
    } else {
        assert(segs.insert(k, d).first() == segs.first());
        assert(segs.insert(k, d).drop_first() =~= segs.drop_first().insert(k - 1, d));
        lemma_data_bytes_insert(segs.drop_first(), k - 1, d);
    }
}

proof fn lemma_chain_offset_nonneg(segs: Seq<Disassembly>, total: int, k: int)
    requires
        segs_chain(segs, total),
        0 <= k < segs.len(),
    ensures
        seg_offset(segs[k]) >= 0,
    decreases k,
{
    if k > 0 {
        lemma_chain_offset_nonneg(segs, total, k - 1);
    }
}

proof fn lemma_chain_end_bound(segs: Seq<Disassembly>, total: int, k: int)
    requires
        segs_chain(segs, total),
        0 <= k < segs.len(),
    ensures
        seg_end(segs[k]) <= total,
    decreases segs.len() - k,
{
    if k < segs.len() - 1 {
        lemma_chain_end_bound(segs, total, k + 1);
    }
}

/// Replacing a data segment by an instruction segment covering exactly
/// the same byte range keeps the tiling and its truthfulness, and lowers
/// the data-byte count by the segment's length.
#[verifier::rlimit(50)]
proof fn lemma_replace_segment(pre: Seq<Disassembly>, bytes: Seq<u8>, j: int, ins: Disassembly)
    requires
        segs_wf(pre, bytes),
        0 <= j < pre.len(),
        pre[j] is Data,
        ins is Instruction,
        seg_wf(ins, bytes),
        seg_offset(ins) == seg_offset(pre[j]),
        seg_len(ins) == seg_len(pre[j]),
    ensures
        segs_wf(pre.update(j, ins), bytes),
        data_bytes(pre.update(j, ins)) == data_bytes(pre) - seg_len(pre[j]),
{
    let post = pre.update(j, ins);
    lemma_data_bytes_update(pre, j, ins);
    assert forall|k: int| 0 <= k < post.len() implies seg_wf(#[trigger] post[k], bytes) by {
        if k != j {
            assert(post[k] == pre[k]);
            assert(seg_wf(pre[k], bytes));
        }
    }
    assert forall|k: int|
        1 <= k < post.len() implies seg_offset(#[trigger] post[k]) == seg_end(post[k - 1]) by {
        assert(seg_offset(pre[k]) == seg_end(pre[k - 1]));
    }
    assert(seg_end(post.last()) == seg_end(pre.last()));
}

/// Splitting a data segment into an instruction segment followed by the
/// shorter data remainder keeps the tiling and its truthfulness, and
/// lowers the data-byte count by the instruction's length.
#[verifier::rlimit(50)]
proof fn lemma_split_segment(
    pre: Seq<Disassembly>,
    bytes: Seq<u8>,
    j: int,
    ins: Disassembly,
    dat: Disassembly,
)
    requires
        segs_wf(pre, bytes),
        0 <= j < pre.len(),
        pre[j] is Data,
        ins is Instruction,
        dat is Data,
        seg_wf(ins, bytes),
        seg_wf(dat, bytes),
        seg_offset(ins) == seg_offset(pre[j]),
        seg_offset(dat) == seg_end(ins),
        seg_end(dat) == seg_end(pre[j]),
    ensures
        segs_wf(pre.update(j, dat).insert(j, ins), bytes),
        data_bytes(pre.update(j, dat).insert(j, ins)) == data_bytes(pre) - seg_len(ins),
        pre.update(j, dat).insert(j, ins)[j + 1] == dat,
        pre.update(j, dat).insert(j, ins).len() == pre.len() + 1,
{
    let mid = pre.update(j, dat);
    let post = mid.insert(j, ins);
    lemma_data_bytes_update(pre, j, dat);
    lemma_data_bytes_insert(mid, j, ins);
    mid.insert_ensures(j, ins);
    assert forall|k: int| 0 <= k < post.len() implies seg_wf(#[trigger] post[k], bytes) by {
        if k < j {
            assert(post[k] == mid[k]);
            assert(mid[k] == pre[k]);
            assert(seg_wf(pre[k], bytes));
        } else if k == j {
            assert(post[k] == ins);
        } else if k == j + 1 {
            assert(post[k] == mid[k - 1]);
            assert(mid[j] == dat);
        } else {
            assert(post[k] == mid[k - 1]);
            assert(mid[k - 1] == pre[k - 1]);
            assert(seg_wf(pre[k - 1], bytes));
        }
    }
    assert forall|k: int|
        1 <= k < post.len() implies seg_offset(#[trigger] post[k]) == seg_end(post[k - 1]) by {
        if k < j {
            assert(post[k] == pre[k]);
            assert(post[k - 1] == pre[k - 1]);
            assert(seg_offset(pre[k]) == seg_end(pre[k - 1]));
        } else if k == j {
            assert(post[k] == ins);
            assert(post[k - 1] == pre[k - 1]);
            assert(seg_offset(pre[j]) == seg_end(pre[j - 1]));
        } else if k == j + 1 {
            assert(post[k] == dat);
            assert(post[k - 1] == ins);
        } else if k == j + 2 {
            assert(post[k] == pre[k - 1]);
            assert(post[k - 1] == dat);
            assert(seg_offset(pre[j + 1]) == seg_end(pre[j]));
        } else {
            assert(post[k] == pre[k - 1]);
            assert(post[k - 1] == pre[k - 2]);
            assert(seg_offset(pre[k - 1]) == seg_end(pre[k - 2]));
        }
    }
    if j > 0 {
        assert(post[0] == pre[0]);
    }
    if j == pre.len() - 1 {
        assert(post.last() == dat);
    } else {
        assert(post.last() == pre[pre.len() - 1]);
    }
}

/// The index of the segment containing the given offset. A chain that
/// tiles `[0, total)` has exactly one such segment for any offset below
/// `total`.
#[verifier::rlimit(50)]
fn find_segment(segs: &Vec<Disassembly>, off: usize, Ghost(total): Ghost<int>) -> (idx: usize)
    requires
        segs_chain(segs@, total),
        (off as int) < total,
        total <= usize::MAX,
    ensures
        idx < segs@.len(),
        seg_offset(segs@[idx as int]) <= off as int,
        (off as int) < seg_end(segs@[idx as int]),
{
    let m: usize = segs.len();
    let mut idx: usize = 0;
    loop
        invariant
            segs_chain(segs@, total),
            (off as int) < total,
            total <= usize::MAX,
            m == segs@.len(),
            idx < m,
            seg_offset(segs@[idx as int]) <= off as int,
        decreases segs@.len() - idx,
    {
        proof {
            lemma_chain_offset_nonneg(segs@, total, idx as int);
            lemma_chain_end_bound(segs@, total, idx as int);
        }
        let seg: &Disassembly = &segs[idx];
        let o: usize = seg.offset();
        let l: usize = seg.len();
        if off < o + l {
            return idx;
        }
        proof {
            if idx as int == segs@.len() - 1 {
                assert(seg_end(segs@[idx as int]) == total);
                assert(false);
            }
        }
        idx = idx + 1;
    }
}

/// Peel decoded instructions off the front of the segment at `start_idx`
/// until its bytes run out or a decode fails, pushing in-range jump
/// targets onto the work list. A segment already classified as an
/// instruction is left alone.
#[verifier::rlimit(100)]
fn peel_at(segs: &mut Vec<Disassembly>, stack: &mut Vec<usize>, bytes: &[u8], start_idx: usize)
    requires
        segs_wf(old(segs)@, bytes@),
        forall|k: int| 0 <= k < old(stack)@.len() ==> (#[trigger] old(stack)@[k]) < bytes@.len(),
        start_idx < old(segs)@.len(),
    ensures
        segs_wf(final(segs)@, bytes@),
        forall|k: int| 0 <= k < final(stack)@.len() ==> (#[trigger] final(stack)@[k]) < bytes@.len(),
        data_bytes(final(segs)@) <= data_bytes(old(segs)@),
        data_bytes(final(segs)@) == data_bytes(old(segs)@) ==> final(stack)@ == old(stack)@,
{
    let ghost segs0 = segs@;
    let ghost stack0 = stack@;
    let n: usize = bytes.len();
    let mut idx: usize = start_idx;
    loop
        invariant
            idx < segs@.len(),
            segs_wf(segs@, bytes@),
            n == bytes@.len(),
            forall|k: int| 0 <= k < stack@.len() ==> (#[trigger] stack@[k]) < n,
            data_bytes(segs@) <= data_bytes(segs0),
            data_bytes(segs@) == data_bytes(segs0) ==> stack@ == stack0,
        ensures
            segs_wf(segs@, bytes@),
            forall|k: int| 0 <= k < stack@.len() ==> (#[trigger] stack@[k]) < n,
            data_bytes(segs@) <= data_bytes(segs0),
            data_bytes(segs@) == data_bytes(segs0) ==> stack@ == stack0,
        decreases seg_len(segs@[idx as int]),
    {
        let seg_off: usize;
        let seg_n: usize;
        let opcode: u8;
        let operand: u8;
        proof {
            assert(seg_wf(segs@[idx as int], bytes@));
        }
        match &segs[idx] {
            Disassembly::Data { data, len, offset } => {
                seg_off = *offset;
                seg_n = *len;
                opcode = data[0];
                operand = if *len > 1 {
                    data[1]
                } else {
                    0
                };
            },
            Disassembly::Instruction { .. } => {
                break;
            },
        }
        let builder = I::from_opcode(opcode);
        let instruction: I;
        match builder {
            IBuilder::Complete(complete) => {
                instruction = complete;
            },
            IBuilder::NeedsData(incomplete) => {
                if seg_n > 1 {
                    instruction = incomplete.with_data(operand);
                } else {
                    break;
                }
            },
            IBuilder::Invalid => {
                break;
            },
        }
        proof {
            assert(bytes@[seg_off as int] == opcode);
            if seg_n > 1 {
                assert(bytes@[seg_off as int + 1] == operand);
            }
            assert(spec_decode(bytes@, seg_off as int) == Some(instruction));
        }
        let ilen: usize = match &instruction {
            I::Nop(_) => 1,
            I::Out(_) => 1,
            I::Hlt(_) => 1,
            _ => 2,
        };
        match &instruction {
            I::Jmp(Jmp(t)) => {
                if (*t as usize) < n {
                    stack.push(*t as usize);
                }
            },
            I::Jpz(Jpz(t)) => {
                if (*t as usize) < n {
                    stack.push(*t as usize);
                }
            },
            I::Jpc(Jpc(t)) => {
                if (*t as usize) < n {
                    stack.push(*t as usize);
                }
            },
            _ => {},
        }
        proof {
            crate::eater::instructions::lemma_decode_encode(bytes@, seg_off as int, instruction);
            assert(ilen == spec_encoded_len(instruction));
            assert(ilen <= seg_n);
        }
        let ghost segs_before = segs@;
        let ins_seg = Disassembly::Instruction { instruction, len: ilen, offset: seg_off };
        let ghost gins = ins_seg;
        if seg_n == ilen {
            segs.set(idx, ins_seg);
            proof {
                lemma_replace_segment(segs_before, bytes@, idx as int, gins);
            }
            break;
        } else {
            let new_off: usize = seg_off + ilen;
            let new_n: usize = seg_n - ilen;
            let sub: &[u8] = vstd::slice::slice_subrange(bytes, new_off, new_off + new_n);
            let new_data: Vec<u8> = vstd::slice::slice_to_vec(sub);
            let data_seg = Disassembly::Data { data: new_data, len: new_n, offset: new_off };
            let ghost gdata = data_seg;
            let ghost j = idx as int;
            segs.set(idx, data_seg);
            segs.insert(idx, ins_seg);
            proof {
                lemma_split_segment(segs_before, bytes@, j, gins, gdata);
            }
            let seg_count: usize = segs.len();
            proof {
                assert(idx < seg_count);
            }
            idx = idx + 1;
        }
    }
}

/// Disassemble a byte buffer into an ordered list of segments that cover
/// the whole buffer exactly once.
///
/// The sweep starts with the entire buffer as data and a work list holding
/// only offset zero. Each work-list entry classifies instructions from the
/// front of the data segment containing it; jump targets found on the way
/// are pushed for later exploration. Bytes where decoding fails stay
/// classified as data.
pub fn disassemble(bytes: &[u8]) -> (r: Vec<Disassembly>)
    ensures
        segs_wf(r@, bytes@),
{
    let n: usize = bytes.len();
    let mut segs: Vec<Disassembly> = Vec::new();
    if n == 0 {
        return segs;
    }
    let whole: Vec<u8> = vstd::slice::slice_to_vec(bytes);
    segs.push(Disassembly::Data { data: whole, len: n, offset: 0 });
    let mut stack: Vec<usize> = Vec::new();
    stack.push(0);
    proof {
        assert(bytes@.subrange(0, n as int) =~= bytes@);
        assert(seg_wf(segs@[0], bytes@));
    }
    loop
        invariant
            segs_wf(segs@, bytes@),
            n == bytes@.len(),
            forall|k: int| 0 <= k < stack@.len() ==> (#[trigger] stack@[k]) < n,
        ensures
            segs_wf(segs@, bytes@),
        decreases data_bytes(segs@), stack@.len(),
    {
        proof {
            lemma_data_bytes_nonneg(segs@);
        }
        let off: usize = match stack.pop() {
            Some(o) => o,
            None => {
                break;
            },
        };
        let idx = find_segment(&segs, off, Ghost(n as int));
        peel_at(&mut segs, &mut stack, bytes, idx);
        proof {
            lemma_data_bytes_nonneg(segs@);
        }
    }
    segs
}

impl Disassembly {
    /// The offset of the segment within the buffer it was cut from.
    pub fn offset(&self) -> (r: usize)
        ensures
            r == seg_offset(*self),
    {
        match self {
            Disassembly::Data { offset, .. } => *offset,
            Disassembly::Instruction { offset, .. } => *offset,
        }
    }

    /// The number of buffer bytes the segment covers.
    pub fn len(&self) -> (r: usize)
        ensures
            r == seg_len(*self),
    {
        match self {
            Disassembly::Data { len, .. } => *len,
            Disassembly::Instruction { len, .. } => *len,
        }
    }
}

} // verus!
