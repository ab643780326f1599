//! A small RISC-V toolchain core: an assembler that turns assembly text into
//! 32-bit machine words, and an instruction-set simulator that executes those
//! words against a synthetic CPU state (register file, byte-addressable
//! memory, floating-point register file held as raw bit patterns, and a
//! memory-mapped GPIO peripheral bank).

pub mod assembler;
pub mod abi;
pub mod ast;
pub mod cpu;
pub mod interp;
pub mod isa;
pub mod parser;
pub mod strutil;

use vstd::prelude::*;

verus! {

} // verus!
