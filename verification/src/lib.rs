//! Evaluation core of a small language built around multiple dispatch: a
//! function name may have several clauses ("receivers"), each guarded by a
//! structural signature pattern, and a call is routed to the first receiver
//! whose pattern matches the actual arguments.
//!
//! The crate provides the expression model, the structural pattern matcher,
//! the multimethod registry, the scope-chain environment, and the
//! tree-walking evaluator that ties them together.

pub mod arith;
pub mod environment;
pub mod expression;
pub mod interpreter;
pub mod laws;
pub mod matcher;
pub mod registry;
