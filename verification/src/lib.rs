//! A two-stage translation toolchain for a 16-bit stack machine.
//!
//! The `translator` half turns stack-based VM commands into symbolic
//! assembly; the `assembler` half turns symbolic assembly into packed
//! 16-bit binary words.  Everything here is pure: callers hand in source
//! lines and take back output lines or words.  The `conformance` module
//! proves that the two halves fit: every line the translator emits is
//! one the assembler accepts.

pub mod asm_parser;
pub mod assembler;
pub mod code;
pub mod code_writer;
pub mod conformance;
pub mod symbol_table;
pub mod text;
pub mod translator;
pub mod vm_parser;
