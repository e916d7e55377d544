pub mod hart;
pub mod csr;
pub mod fp_bits;
pub mod types;
pub mod engine;
pub mod fp_mem;
pub mod fp_ops;
