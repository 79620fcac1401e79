//! Assembler, machine-code codec and simulator for a small 8-bit CPU with
//! 16-bit instruction words and memory-mapped peripherals.

pub mod glyph;
pub mod isa;
pub mod io;
pub mod vm;
pub mod lex;
pub mod assembler;
pub mod mc;
