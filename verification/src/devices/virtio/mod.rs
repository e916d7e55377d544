pub mod block;
pub mod device;
pub mod gpu;
pub mod input;
pub mod p9;
pub mod any;
