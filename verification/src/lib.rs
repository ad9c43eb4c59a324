//! A CHIP-8 interpreter: memory, registers, call stack, timers, keypad and
//! display, and the rules by which each instruction changes them.
//!
//! The machine talks to the outside through two channels: changes of the
//! frame go out, key events come in. What an instruction does is stated over
//! [`machine::Machine`], the machine as plain mathematical values.

pub mod channel;
pub mod display;
pub mod fault;
pub mod instruction;
pub mod interpreter;
pub mod keypad;
pub mod machine;
pub mod memory;
pub mod operation;
pub mod random;
pub mod registers;
pub mod replay;
pub mod settings;
pub mod sprite;
pub mod stack;
pub mod timer;
