//! Execution engine of an HTTP load generator: the budget that decides
//! whether another request may go out, the run state that all workers share,
//! and the reduction of the collected samples to a summary.

pub mod budget;
pub mod cli;
pub mod engine;
pub mod output;
pub mod stats;
