//! Permission sets for mapped regions, and the user-facing `port` encoding.

use vstd::prelude::*;

verus! {

/// A small set of access bits carried by every mapped region.
#[derive(Clone, Copy, Debug, PartialEq, Eq, Structural)]
pub struct MapPermission {
    pub readable: bool,
    pub writable: bool,
    pub executable: bool,
    pub user_accessible: bool,
}

/// The low three bits of `port` select read, write and execute access;
/// a region created on behalf of user code is always user-accessible.
pub open spec fn perm_from_port(port: usize) -> MapPermission {
    MapPermission {
        readable: port & 0x1 != 0,
        writable: port & 0x2 != 0,
        executable: port & 0x4 != 0,
        user_accessible: true,
    }
}

/// `port` carries bits that the encoding does not recognise.
pub open spec fn port_has_reserved_bits(port: usize) -> bool {
    port & 0xF8 != 0
}

/// `port` grants no access at all.
pub open spec fn port_grants_no_access(port: usize) -> bool {
    port & 0x07 == 0
}

impl MapPermission {
    /// Decode the low three bits of `port` and force user accessibility on.
    pub fn from_port(port: usize) -> (r: MapPermission)
        ensures
            r == perm_from_port(port),
    {
        MapPermission {
            readable: port & 0x1 != 0,
            writable: port & 0x2 != 0,
            executable: port & 0x4 != 0,
            user_accessible: true,
        }
    }
}

} // verus!
