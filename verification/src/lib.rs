//! A minimal stack-and-register virtual machine with a companion
//! text-to-bytecode assembler: a closed instruction set with total
//! byte/mnemonic mappings, a line-oriented encoder, and a fetch-decode-
//! execute engine over eight 32-bit registers and a bounded stack.

pub mod assembler;
pub mod instruction;
pub mod numerals;
pub mod vm;
