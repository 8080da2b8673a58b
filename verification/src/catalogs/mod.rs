//! Catalogs: where databases and tables are looked up.

pub mod database_catalog;
