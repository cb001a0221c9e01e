//! Stable parameter identifiers and bounded, null-terminated string copies
//! for fixed-size character buffers shared with a plugin host.
pub mod bounded_copy;
pub mod narrow;
pub mod param_id;
pub mod wide;
