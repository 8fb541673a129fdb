//! A verified interpreter for an 8-bit virtual machine with a fixed
//! 35-instruction opcode family: 4 KiB of memory, 16 byte-wide registers,
//! a 16-bit index register and program counter, a 16-slot call stack with a
//! wrapping stack pointer, two countdown timers, and a 64x64 monochrome
//! display composed by XOR blitting.

pub mod blit;
pub mod dispatch;
pub mod laws;
pub mod machine;
pub mod model;
