//! A verified CHIP-8 execution core: addressable memory, instruction
//! decoding, the opcode execution engine, the two hardware timers, a
//! monochrome framebuffer with XOR drawing, and a disassembler for the
//! debug views.
//!
//! The presentation layer (windowing, physical keyboard, audio output)
//! is an external collaborator: it feeds this core a 16-key pressed-state
//! snapshot, reads the framebuffer back, and consumes a two-state audio
//! signal derived from the sound timer.

pub mod cpu;
pub mod decode;
pub mod disasm;
pub mod draw;
pub mod error;
pub mod framebuffer;
pub mod laws;
pub mod memory;
