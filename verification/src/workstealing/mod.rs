//! A runtime of the same design whose tasks are counted references, whose memory comes from pools,
//! and whose sources are known by tokens.
pub mod context;
pub mod join;
pub mod laws;
pub mod reactor;
pub mod runtime_context;
pub mod scheduler;
pub mod task;
pub mod task_pool;
pub mod worker;
pub mod worker_pool;
