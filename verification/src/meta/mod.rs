//! The descriptions of stages: where files to load are found and how they
//! are read.

pub mod user_stage;
