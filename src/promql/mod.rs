//! Translation of PromQL expressions into logical plans.

pub mod ast;
pub mod context;
pub mod fields;
pub mod names;
pub mod order;
pub mod plan;
pub mod planner;
