//! Peer discovery: a node broadcasts `PING` on its LAN and collects the nodes
//! that answer `PONG`.
use vstd::prelude::*;
use vstd::string::*;

use crate::bus::BROADCAST_RECV;
use crate::error::Error;
use crate::utils::{broadcast_addr, decimal, get_broadcast_addr, port_text};

verus! {

/// The messages of peer discovery; `NONE` stands for anything unreadable.
#[derive(Debug, Clone, Copy, PartialEq, Eq, Structural)]
pub enum Ping {
    PING,
    PONG,
    NONE,
}

/// The answer to a received discovery message: `PONG` to a `PING`, nothing otherwise.
pub fn answer(msg: Ping) -> (r: Option<Ping>)
    ensures
        r == (if msg == Ping::PING { Some(Ping::PONG) } else { None::<Ping> }),
{
    match msg {
        Ping::PING => Some(Ping::PONG),
        _ => None,
    }
}

/// Takes note of a reply to this node's `PING`: a `PONG` from another host adds
/// that host's address to the peers; anything else changes nothing.
pub fn record_reply(peers: &mut Vec<String>, reply: Ping, src_ip: String, self_ip: &String)
    ensures
        final(peers)@ == (if reply == Ping::PONG && src_ip@ != self_ip@ {
            old(peers)@.push(src_ip)
        } else {
            old(peers)@
        }),
{
    if reply == Ping::PONG && src_ip != *self_ip {
        peers.push(src_ip);
    }
}

/// How long a node waits for replies to its `PING`, in milliseconds.
pub const REPLY_WINDOW_MS: u64 = 2000;

/// The wait that is left after a reply took `elapsed_ms` of the `left_ms` that
/// were left; `None` once the window is used up.
pub fn next_window(left_ms: u64, elapsed_ms: u64) -> (r: Option<u64>)
    ensures
        r == (if elapsed_ms < left_ms { Some((left_ms - elapsed_ms) as u64) } else { None::<u64> }),
{
    if elapsed_ms < left_ms {
        Some(left_ms - elapsed_ms)
    } else {
        None
    }
}

/// Where discovery pings are sent: the LAN's broadcast address and the port on
/// which nodes answer, `x.y.z.255:<BROADCAST_RECV>`.
pub fn ping_target(self_ip: String) -> (r: Result<String, Error>)
    ensures
        r matches Ok(t) && t@ == broadcast_addr(self_ip@) + ":"@ + decimal(BROADCAST_RECV as nat),
{
    let mut target = match get_broadcast_addr(self_ip) {
        Ok(t) => t,
        Err(e) => {
            return Err(e);
        },
    };
    target.append(":");
    let port = port_text(BROADCAST_RECV);
    target.append(port.as_str());
    Ok(target)
}

} // verus!
