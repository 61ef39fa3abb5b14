//! The core of an emulator of a two-level training computer: a machine whose
//! instructions are run by microcode.
//!
//! - [`bits`]: single bits and ranges of bits of a word.
//! - [`text`]: characters, fields and lines of a text, and numbers in
//!   hexadecimal and decimal.
//! - [`model`]: the registers and status flags, the two memory banks, the
//!   devices, the diagnostic log, and the machine that holds them.
//! - [`parse`]: the instruction set and its mnemonics, the microcode and what
//!   each micro-instruction does, and the loader of programs.
//! - [`control`]: bounded runs, the actions of the control panel, and the
//!   rules that tie the status flags to the devices.
//! - [`trace`]: tables of the registers step by step, and their export.
//! - [`laws`]: what holds of the machine whatever it holds.
//!
//! Every function has a contract over a mathematical model of the machine,
//! [`model::ComputerView`], and the library's own code is proved to meet it.
//! Three items are taken on trust, and say so where they stand: the one that
//! appends a character to a string, and the two that read the system clock
//! for the mark of a memory cell's last write.

pub mod bits;
pub mod control;
pub mod laws;
pub mod model;
pub mod parse;
pub mod text;
pub mod trace;
