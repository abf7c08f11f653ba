//! Networking constants and the device and peer messages exchanged on the LAN.
use vstd::prelude::*;

pub mod device;
pub mod peer;

verus! {

/// The port on which a node serves its abilities over HTTP.
pub const HTTP_SERVICE_PORT: u16 = 8080;

/// The port on which a node answers peer-discovery pings.
pub const BROADCAST_RECV: u16 = 8890;

/// The port from which a node sends peer-discovery pings.
pub const BROADCAST_SEND: u16 = 8891;

/// The port of the gossip service.
pub const GOSSIP_ADDRESS_PORT: u16 = 9000;

} // verus!
