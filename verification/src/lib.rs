//! A CHIP-8 interpreter core: the machine state, the instruction decoder and
//! the executor that steps the machine one instruction at a time.
//!
//! Every function is stated against a mathematical model of the machine
//! ([`machine::MachineState`]) and of one instruction's effect
//! ([`semantics::execute`]), and verified against it.

pub mod decode;
pub mod display;
pub mod font;
pub mod interpreter;
pub mod laws;
pub mod machine;
mod random;
pub mod semantics;

pub use crate::decode::{decode, Operands};
pub use crate::machine::{Chip8, Fault, MachineState, StepOutcome};
