//! Rewrites that take subqueries out of scalar expressions.

pub mod decorrelate;
pub mod laws;
pub mod subquery_rewriter;
pub mod unnest;
