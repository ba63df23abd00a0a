//! A CHIP-8 virtual machine: registers, memory, call stack, display and
//! keypad, with every instruction specified against a mathematical model.

pub mod pc;
pub mod stack;
pub mod display;
pub mod state;
pub mod keypad;
pub mod random;
pub mod cpu;
pub mod laws;
pub mod opcode_laws;
