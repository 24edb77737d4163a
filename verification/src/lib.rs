//! A CHIP-8 emulator core: processor, memory, screen, keypad and timers, with
//! every instruction specified against a mathematical model of the machine.
use vstd::prelude::*;

pub mod cpu;
pub mod display;
pub mod emulator;
pub mod instruction_laws;
pub mod keypad;
pub mod laws;
pub mod machine;
pub mod memory;

pub use cpu::Cpu;
pub use display::{lit_cells, Display};
pub use emulator::{CycleReport, Emulator};
pub use keypad::{apply_key_event, map_key};
pub use memory::Memory;

verus! {

} // verus!
