//! Date and time from a PL031 real-time clock, for boot firmware.
//!
//! The PL031 exposes one 32-bit register holding the seconds since the Unix
//! epoch. This crate models the device's memory-mapped window, decodes the
//! register value into a calendar date and a time of day, and moves the
//! window when the firmware remaps its address space.
pub mod calendar;
pub mod mem;
pub mod pl031;

pub use pl031::{fix_up, read_date, read_time, DecodeError, Pl031, RelocationError};
