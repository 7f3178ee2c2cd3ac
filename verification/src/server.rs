//! The server's configuration.
use vstd::prelude::*;

verus! {

/// The server's listening address.
pub struct Server<'a> {
    socket_addr: &'a str,
}

impl<'a> View for Server<'a> {
    type V = Seq<char>;

    closed spec fn view(&self) -> Seq<char> {
        self.socket_addr@
    }
}

impl<'a> Server<'a> {
    /// A server that listens on `socket_addr`.
    pub fn new(socket_addr: &'a str) -> (r: Server<'a>)
        ensures
            r@ == socket_addr@,
    {
        Server { socket_addr }
    }

    /// The address the server listens on.
    pub fn socket_addr(&self) -> (r: &'a str)
        ensures
            r@ == self@,
    {
        self.socket_addr
    }
}

} // verus!
