//! Query-processing core of an analytical SQL engine: logical plans, the
//! subquery unnesting optimizer and the hash-join operator, with their
//! behaviour stated as contracts and proved.

pub mod catalogs;
pub mod datavalues;
pub mod error;
pub mod hash_join;
pub mod interpreters;
pub mod io;
pub mod meta;
pub mod optimizer;
pub mod planner;
pub mod procedures;
pub mod text;
