//! A peer that is connected to the server.

use vstd::prelude::*;

verus! {

/// The link role that makes this side the slave of a connection.
pub const LINK_ROLE_SLAVE: u8 = 1;

/// An active connection.
///
/// `==` compares the peers' addresses only: a peer that comes back under
/// another connection identifier is still the same peer. In contracts,
/// `same_peer` says so; `==` there compares all three fields.
#[derive(Debug, Copy, Clone)]
pub struct Connection {
    pub id: u16,
    pub is_slave: bool,
    pub remote_bda: [u8; 6],
}

/// Whether two addresses hold the same six bytes.
pub fn address_eq(a: &[u8; 6], b: &[u8; 6]) -> (r: bool)
    ensures
        r == (*a == *b),
{
    let mut i: usize = 0;
    while i < 6
        invariant
            i <= 6,
            forall|k: int| 0 <= k < i ==> a[k] == b[k],
        decreases 6 - i,
    {
        if a[i] != b[i] {
            return false;
        }
        i += 1;
    }
    assert(*a =~= *b);
    true
}

impl Connection {
    pub fn new(id: u16, is_slave: bool, remote_bda: [u8; 6]) -> (r: Self)
        ensures
            r == (Connection { id, is_slave, remote_bda }),
    {
        Self { id, is_slave, remote_bda }
    }

    /// The connection that a connect or disconnect event of the host stack
    /// describes: this side is the slave where the link role says so.
    pub fn from_link(conn_id: u16, link_role: u8, remote_bda: [u8; 6]) -> (r: Self)
        ensures
            r == (Connection { id: conn_id, is_slave: link_role == LINK_ROLE_SLAVE, remote_bda }),
    {
        Self { id: conn_id, is_slave: link_role == LINK_ROLE_SLAVE, remote_bda }
    }

    pub fn id(&self) -> (r: u16)
        ensures
            r == self.id,
    {
        self.id
    }

    pub fn is_slave(&self) -> (r: bool)
        ensures
            r == self.is_slave,
    {
        self.is_slave
    }

    pub fn remote_bda(&self) -> (r: [u8; 6])
        ensures
            r == self.remote_bda,
    {
        self.remote_bda
    }

    /// The two connections are to the same peer.
    pub open spec fn same_peer(self, other: Connection) -> bool {
        self.remote_bda == other.remote_bda
    }
}

impl PartialEq for Connection {
    fn eq(&self, other: &Self) -> (r: bool) {
        address_eq(&self.remote_bda, &other.remote_bda)
    }
}

impl Eq for Connection {

}

impl vstd::std_specs::cmp::PartialEqSpecImpl for Connection {
    open spec fn obeys_eq_spec() -> bool {
        true
    }

    open spec fn eq_spec(&self, other: &Self) -> bool {
        self.same_peer(*other)
    }
}

} // verus!
