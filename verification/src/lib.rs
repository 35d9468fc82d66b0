//! A CHIP-8 virtual machine: the opcode interpreter with its framebuffer,
//! keypad and timers, free of any window, audio device or file.

pub mod cpu;
pub mod display;
pub mod fault;
pub mod instruction;
pub mod keypad;
pub mod laws;
pub mod machine;
pub mod pacing;
pub mod sprite_laws;
