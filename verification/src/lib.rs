pub mod bench;
pub mod counter;
mod cpus;
pub mod executor;
pub mod layout;
pub mod net;
pub mod poll;
pub mod queues;
pub mod time;
pub mod waker;
pub mod workstealing;
