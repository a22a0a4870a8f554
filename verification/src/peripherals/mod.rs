//! Emulated peripherals: non-volatile storage and the SD card.

pub mod nvs;
pub mod sdcard;
