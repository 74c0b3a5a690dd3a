//! A CHIP-8 virtual machine: memory, call stack, timers, sprites, display and
//! the engine that fetches, decodes and executes instructions against them.

pub mod engine;
pub mod error;
pub mod font;
pub mod input;
pub mod load;
pub mod machine;
pub mod memory;
pub mod opcode;
pub mod screen;
pub mod sprite;
pub mod stack;
pub mod timers;
