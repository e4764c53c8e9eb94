//! Reads one line of digits into a caller-supplied fixed-capacity buffer.
//!
//! The crate validates a line of input as a non-negative integer bounded by
//! `i32::MAX / 10` and copies its digits, null-terminated and truncated to the
//! buffer's capacity, into a caller-owned byte buffer.  All validation and the
//! buffer write are verified; the surrounding I/O lives outside the library.

pub mod line;
pub mod reader;
