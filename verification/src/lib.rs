//! Driver core for USB-attached LED matrix panels.
//!
//! The crate decides everything that is sent to a panel and everything that is
//! reported back to the host, and performs no input or output itself: the host
//! enumerates the serial ports, opens and writes them, and hands the outcomes
//! back.
pub mod config;
pub mod device;
pub mod error;
