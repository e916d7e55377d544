pub mod bench;
mod bits;
pub mod bus;
pub mod clint;
pub mod crypto;
pub mod cpu;
pub mod devices;
pub mod dram;
pub mod dtb;
pub mod mmu;
