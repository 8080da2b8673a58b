//! The procedures that a `CALL` statement runs.

pub mod fuse_segment;
