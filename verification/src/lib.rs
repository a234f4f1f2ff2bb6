//! An interpreter for the CHIP-8 virtual machine, verified with Verus.
//!
//! The machine is a register file with call stack and timers ([`cpu`]), 4096
//! bytes of memory that start with a built-in font ([`memory`]), and a
//! 64 by 32 pixel display on which sprites are drawn by exclusive or
//! ([`display`]). [`chip::Chip`] owns the three and runs programs one step at
//! a time: it fetches a word, decodes it ([`instruction`]) and carries it out.
//!
//! The machine does no input or output of its own. Each step is handed a
//! picture of the sixteen keys ([`keys::Keys`]) and answers with what the
//! caller should do next ([`chip::Effect`]); the caller decides when a step is
//! taken and when the timers tick.
//!
//! Every function states what it does over a mathematical model of the
//! machine ([`chip::ChipState`], [`cpu::CpuState`]), and Verus proves that it
//! does so without overflow or panic.
pub mod chip;
pub mod cpu;
pub mod display;
pub mod error;
pub mod instruction;
pub mod keys;
pub mod memory;
mod random;
