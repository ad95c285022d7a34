use vstd::prelude::*;

verus! {

/// A UDP endpoint as the relay logic sees it: an IPv4 address held as one
/// integer, and a port. Plain integer fields let contracts compare and
/// distinguish endpoints directly.
#[derive(Clone, Copy, PartialEq, Eq, Structural, Debug)]
pub struct Addr {
    pub ip: u32,
    pub port: u16,
}

impl Addr {
    pub fn new(ip: u32, port: u16) -> (r: Addr)
        ensures
            r.ip == ip,
            r.port == port,
    {
        Addr { ip, port }
    }

    /// A real UDP sender never has port zero; the all-zero address with port
    /// zero is the placeholder a failed receive reports, and the dispatch
    /// loop must ignore it.
    pub open spec fn spec_valid(self) -> bool {
        self.port != 0
    }

    pub fn is_valid(&self) -> (r: bool)
        ensures
            r == self.spec_valid(),
    {
        self.port != 0
    }
}

} // verus!
