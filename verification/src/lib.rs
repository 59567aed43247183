//! A status-bar engine: merges independently paced metric sources into
//! throttled snapshots, frames them on a line-oriented JSON wire protocol,
//! and decodes the click events a bar renderer sends back, recovering the
//! exact message each block carried.

pub mod base64;
pub mod block;
pub mod codec;
pub mod color;
pub mod combine;
pub mod event;
pub mod message;
pub mod protocol;
pub mod sources;
pub mod text;
pub mod throttle;
pub mod util;
pub mod views;
