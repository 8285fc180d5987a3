//! Identities of peers.
use vstd::prelude::*;

verus! {

/// The network address of a peer without its port: the identity that bans
/// are recorded against.
#[derive(Clone, Copy, Debug, PartialEq, Eq, Hash, Structural)]
pub enum Origin {
    /// An IPv4 address, as its 32-bit big-endian number.
    V4(u32),
    /// An IPv6 address, as its 128-bit big-endian number.
    V6(u128),
}

/// The address of one connection: the origin it comes from and the port on
/// that origin. Registered clients are keyed by it.
#[derive(Clone, Copy, Debug, PartialEq, Eq, Hash, Structural)]
pub struct ClientKey {
    pub origin: Origin,
    pub port: u16,
}

} // verus!
