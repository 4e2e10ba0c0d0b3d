//! Write-side pipelining for a streaming endpoint: outbound items are encoded
//! into a buffered sink one after another, and the buffer is flushed to the
//! transport only when no further item is immediately available.
//!
//! The machine in [`writer`] makes every decision; whoever drives it performs
//! the polls it asks for and reports their outcomes back.
pub mod tokens;
pub mod source;
pub mod writer;
pub mod laws;
