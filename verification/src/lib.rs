//! Cyders: the logic of a CYD (Cheap Yellow Display) ESP32 board emulator.
//!
//! The crate holds the parts of the emulator that decide and compute: the
//! touch-screen model, the RGB565 framebuffer, the NVS key-value store, the
//! sector-addressed SD card, the emulator worker's control loop decisions,
//! the board catalogue and the text shown by the debug panels.

pub mod text;
pub mod input;
pub mod peripherals;
pub mod display;
pub mod emulator;
pub mod board;
pub mod ui;
pub mod controls;
