//! Square integer matrix products, sequential and split into independent row tasks for a
//! pool of worker threads, with the decisions of such a pool: how many workers to start, how a
//! worker reacts to a message, and how a shutdown stops each worker exactly once.

pub mod arith;
pub mod cli;
pub mod generate;
pub mod matrix;
pub mod multiply;
pub mod parallel;
pub mod pool;
pub mod rectangle;
pub mod sanitize;
