pub mod clint;
pub mod d1_audio;
pub mod d1_display;
pub mod d1_emac;
pub mod d1_mmc;
pub mod d1_touch;
pub mod virtio;
pub mod plic;
pub mod uart;
