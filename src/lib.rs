//! Fox: a fantasy-computer stack virtual machine, its memory-mapped devices
//! and its assembler.
pub mod memory;
pub mod dma;
pub mod bytecode;
pub mod vm;
pub mod laws;
pub mod device;
pub mod screen;
pub mod mouse;
pub mod keyboard;
pub mod system;
pub mod console;
pub mod file;
pub mod tokenizer;
pub mod parser;
pub mod assembler;
