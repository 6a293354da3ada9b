//! The server's identity: the socket address it is to listen on. The accept
//! loop itself — binding, reading a connection's bytes, writing the response
//! back — is transport work that lives with the program, not with this
//! protocol layer.
use vstd::prelude::*;

verus! {

/// A server bound to one socket address.
pub struct Server<'a> {
    socket_addr: &'a str,
}

impl<'a> Server<'a> {
    /// The characters of the configured socket address.
    pub closed spec fn spec_addr(self) -> Seq<char> {
        self.socket_addr@
    }

    /// A server that will listen on `socket_addr`.
    pub fn new(socket_addr: &'a str) -> (r: Server<'a>)
        ensures
            r.spec_addr() == socket_addr@,
    {
        Server { socket_addr }
    }

    /// The address the server was created with.
    pub fn socket_addr(&self) -> (r: &str)
        ensures
            r@ == self.spec_addr(),
    {
        self.socket_addr
    }
}

} // verus!
