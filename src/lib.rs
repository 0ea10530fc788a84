//! Execution core of a block pipeline language: the closed set of block kinds,
//! the grammar primitives that turn parsed fragments into configuration pairs,
//! the execution environment, and the resolution of `${NAME.key}` references.

pub mod block_type;
pub mod env;
pub mod grammar;
pub mod variables;
