//! An 8-bit handheld-console core: the CPU's register file and instruction
//! engine, the memory map with its cartridge header, and the display timing
//! that the executed cycles drive.
pub mod address;
pub mod alu;
pub mod cartridge;
pub mod cpu;
pub mod mmu;
