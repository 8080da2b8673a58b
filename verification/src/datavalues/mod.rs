//! Data types, scalar values, columns and blocks.

pub mod block;
pub mod column;
pub mod data_type;
pub mod data_value;
pub mod number_serializer;
