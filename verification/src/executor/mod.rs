//! The runtime: tasks, the scheduler that queues them, the workers that run them, and the reactor
//! that wakes them.
pub mod reactor;
pub mod context;
pub mod join_handle;
pub mod laws;
pub mod scheduler;
pub mod handle;
pub mod task;
pub mod stats;
pub mod worker;
pub mod runtime;
