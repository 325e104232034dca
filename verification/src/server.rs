use vstd::prelude::*;

verus! {

/// A server and the address at which it listens.
pub struct Server<'a> {
    socket_address: &'a str,
}

impl<'a> Server<'a> {
    /// The address at which the server listens.
    pub closed spec fn address(&self) -> Seq<char> {
        self.socket_address@
    }

    /// A server for the address `socket_address`.
    pub fn new(socket_address: &'a str) -> (r: Self)
        ensures
            r.address() == socket_address@,
    {
        Server { socket_address }
    }

    /// The address at which the server listens.
    pub fn socket_address(&self) -> (r: &'a str)
        ensures
            r@ == self.address(),
    {
        self.socket_address
    }
}

} // verus!
