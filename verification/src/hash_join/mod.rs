//! The hash join: accumulating the build side, indexing it by key and
//! probing it.

pub mod desc;
pub mod hash_method;
pub mod join_hash_table;
pub mod keys;
pub mod laws;
pub mod probe;
pub mod probe_spec;
pub mod row;
pub mod state;
pub mod table;
