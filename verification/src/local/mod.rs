//! The engine that keeps a counter or a queue in memory.

pub mod counter;
pub mod queue;
