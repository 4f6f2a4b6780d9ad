//! An emulator for a minimal 8-bit single-accumulator computer, together
//! with a control-flow-aware disassembler and the state machine that drives
//! an interactive front-end.
//!
//! The `eater` module holds the machine itself: the instruction set, the
//! fetch/decode/execute cycle and the disassembler. The `simulator` module
//! holds the mode/edit state machine that a terminal front-end drives.
use vstd::prelude::*;

pub mod eater;
pub mod simulator;
