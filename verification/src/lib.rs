//! A verified interpreter for the classic 8-bit CHIP-8 virtual machine:
//! a 16-register CPU with a call stack and two decrementing timers, 4 KiB of
//! flat memory with a write-protected glyph table, a 64x32 monochrome
//! framebuffer with XOR sprite compositing, and a 16-key input device.

pub mod text;
pub mod memory;
pub mod display;
pub mod input;
pub mod cpu;

pub use cpu::Cpu;
pub use memory::Memory;
pub use display::Display;
pub use input::Input;
