//! The server and the address it listens on.

use vstd::prelude::*;

verus! {

/// A server and the address it listens on.
#[derive(Debug)]
pub struct Server<'a> {
    socket_addr: &'a str,
}

impl<'a> View for Server<'a> {
    type V = Seq<char>;

    /// The address.
    closed spec fn view(&self) -> Seq<char> {
        self.socket_addr@
    }
}

impl<'a> Server<'a> {
    /// A server for the address `socket_addr`.
    pub fn new(socket_addr: &'a str) -> (server: Server<'a>)
        ensures
            server@ == socket_addr@,
    {
        Self { socket_addr }
    }

    /// The address that the server listens on.
    pub fn socket_addr(&self) -> (socket_addr: &'a str)
        ensures
            socket_addr@ == self@,
    {
        self.socket_addr
    }
}

} // verus!
