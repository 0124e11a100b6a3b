use crate::net::tcp::AsyncTcpListener;
use vstd::prelude::*;

verus! {

/// Serves the connections that come in on a socket.
#[derive(Debug, Clone, Copy, PartialEq, Eq, Structural)]
pub struct Server {
    pub tcp: AsyncTcpListener,
}

impl Server {
    pub fn new(tcp: AsyncTcpListener) -> (server: Self)
        ensures
            server.tcp == tcp,
    {
        Server { tcp }
    }
}

} // verus!
