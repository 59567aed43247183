//! The views: one renderer per metric, turning a reading into a block.

pub mod battery;
pub mod brightness;
pub mod cpu;
pub mod date;
pub mod disk;
pub mod memory;
pub mod time;
