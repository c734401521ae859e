//! Emulation of the Namco 163 cartridge controller: bank-switched memory
//! decoding, an eight-channel wavetable audio synthesizer driven by a
//! round-robin scheduler, and a 15-bit cycle-driven interrupt counter.
//!
//! Every operation is specified over a mathematical view of the hardware
//! state and verified: bus reads and writes decode exactly as stated, the
//! phase accumulators stay inside their wavetable windows, and the interrupt
//! counter saturates at its terminal value.

pub mod audio;
pub mod mapper;
pub mod memory_block;
pub mod ring_buffer;
