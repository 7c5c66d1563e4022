//! The core of an 8-bit handheld console emulator: CPU, memory bus with cartridge bank
//! switching, timer, pixel processing unit and the audio unit's voice state machines.
//!
//! - `byteop`: byte and bit helpers.
//! - `cpu`: the register file and the ALU, rotate and shift operations.
//! - `mbc`: cartridge bank controllers.
//! - `memory`: the memory-mapped address space.
//! - `timer`: DIV and TIMA.
//! - `ppu`: the LCD state machine and the scanline renderer.
//! - `apu`: the four voices' length, envelope, sweep and noise state.
//! - `keymap`: the host keys bound to the joypad.
//! - `runtime`: the machine that fetches, decodes and executes instructions.
pub mod apu;
pub mod byteop;
pub mod cpu;
pub mod keymap;
pub mod mbc;
pub mod memory;
pub mod ppu;
pub mod registers;
pub mod runtime;
pub mod timer;
