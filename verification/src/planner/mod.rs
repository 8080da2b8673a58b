//! Logical plans and what is derived from them.

pub mod binder;
pub mod column_set;
pub mod join_condition;
pub mod metadata;
pub mod names;
pub mod plan_user_stage_remove;
pub mod plans;
pub mod rel_expr;
pub mod s_expr;
pub mod scalar;
pub mod statement_show_create_table;
