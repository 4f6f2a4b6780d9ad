//! The machine core: instruction set, machine state and disassembler.
mod cpu;
mod disassemble;
mod instructions;

pub use cpu::{Cpu, Flag, MachineView};
pub use cpu::{
    spec_get, spec_read, spec_write, spec_wrap_add, spec_wrap_sub, spec_exec, spec_next,
    spec_illegal, spec_step, spec_assemble, spec_boot,
};
pub use cpu::{
    lemma_step_preserves_wf, lemma_running_ip_in_bounds, lemma_halted_frozen, lemma_arith_carry,
    lemma_invalid_opcode_freezes, lemma_jump_out_of_bounds, lemma_hlt_freezes_ip,
    lemma_write_grows,
};
pub use disassemble::{
    Disassembly, disassemble, seg_offset, seg_len, seg_end, seg_wf, segs_chain, segs_wf,
    data_bytes, data_contrib,
};
pub use instructions::{I, IBuilder, IWithoutData};
pub use instructions::{Nop, Ldi, Lda, Sta, Add, Sub, Jmp, Jpz, Jpc, Out, Hlt};
pub use instructions::{
    spec_encode, spec_opcode, spec_operand, spec_encoded_len, spec_builder, spec_with_data,
    spec_decode, lemma_encode_decode, lemma_encode_decode_prefix, lemma_decode_encode,
};
