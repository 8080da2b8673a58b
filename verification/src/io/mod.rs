//! Reading text from a buffer of bytes.

pub mod buffer_read;
pub mod buffer_read_ext;
