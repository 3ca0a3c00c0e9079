//! An emulator of the Renesas H8/3069F microcontroller: its bus, its CPU
//! (H8/300H instruction set) and the loader that places an ELF program in
//! external DRAM.

pub mod error;
pub mod memory;
pub mod registers;
pub mod bus;
pub mod cpu;
pub mod elf;
pub mod laws;
pub mod instruction_laws;
pub mod bit_laws;
pub mod move_laws;
pub mod decode_laws;
