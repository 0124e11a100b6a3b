//! What goes over the network.
pub mod attempt;
pub mod server;
pub mod status;
pub mod tcp;
pub mod tcp_listener;
pub mod tcp_stream;
