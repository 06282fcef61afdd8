//! An RV64I instruction-set emulator: a flat little-endian DRAM behind an
//! address-routing bus, and a fetch-decode-execute CPU with a verified
//! functional model of every implemented instruction.

pub mod bytes;
pub mod isa;
pub mod dram;
pub mod bus;
pub mod cpu;
