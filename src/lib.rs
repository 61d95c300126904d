//! Runs an analysis over many packages, each job in its own sandboxed child:
//! the job queue, the line protocol with the child, and the decisions of each
//! worker slot, with their contracts.
pub use options::{RerunWhen, Tool};

pub mod catalog;
pub mod inflight;
pub mod job;
pub mod options;
pub mod progress;
pub mod protocol;
pub mod queue;
pub mod text;
pub mod worker;
