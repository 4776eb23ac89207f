//! A small register machine and the assembler that targets it.
//!
//! The assembler turns mnemonic source text into a byte image of fixed-width
//! instruction records; the virtual machine executes such an image against a
//! register file, a program counter, a heap buffer and a comparison flag.
//! The functions of this crate carry contracts that Verus proves; the one
//! call into the byteorder crate is taken on trust. The module `agreement`
//! holds what is proved of the assembler and the machine together.

pub mod agreement;
pub mod assembler;
pub mod instruction;
pub mod repl;
pub mod text;
pub mod vm;
