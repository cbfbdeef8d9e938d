//! A CHIP-8 virtual machine: instruction decoding, memory, display, keypad and
//! the interpreter for the instruction set, each operation with its contract.

pub mod decode;
pub mod input;
pub mod instruction_laws;
pub mod laws;
pub mod machine;
pub mod memory;
pub mod screen;
pub mod vm;

