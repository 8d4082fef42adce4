//! What the bootloader hands over.

pub mod memory_map;
