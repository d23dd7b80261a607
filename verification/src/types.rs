//! Plain values shared by the worker and the coordinator.

use vstd::prelude::*;

verus! {

/// How long a ban lasts, in nanoseconds (ten minutes).
pub const BAN_DURATION: u128 = 600_000_000_000;

/// The least time, in nanoseconds, that must lie between a peer's reference
/// time and a message for the message to be relayed (one second).
pub const MESSAGE_RATE: u128 = 1_000_000_000;

/// The number of strikes at which a peer is banned.
pub const STRIKE_LIMIT: u32 = 10;

/// The largest number of bytes that a worker takes from its socket at once.
pub const READ_CHUNK: usize = 64;

/// An IP address, as the integer that its octets spell in network order.
#[derive(Clone, Copy, Debug, PartialEq, Eq, Hash, Structural)]
pub enum Ip {
    V4(u32),
    V6(u128),
}

/// A network endpoint: the identity of one connection.
#[derive(Clone, Copy, Debug, PartialEq, Eq, Hash, Structural)]
pub struct Addr {
    pub ip: Ip,
    pub port: u16,
}

/// What the coordinator remembers of an admitted peer.
///
/// Times are nanoseconds since an epoch that the caller chooses.
#[derive(Clone, Copy, Debug, PartialEq, Eq, Structural)]
pub struct Client {
    /// The peer's reference time for the rate rule: the time of admission.
    pub last_message: u128,
    /// The strikes collected so far.
    pub strike_count: u32,
}

/// What a connection worker reports to the coordinator.
#[derive(Clone, Debug, PartialEq, Eq)]
pub enum Event {
    /// A connection was accepted.
    Connected { author: Addr },
    /// The peer closed the connection, or reading from it failed.
    Disconnected { author: Addr },
    /// One read returned these bytes.
    NewMessage { author: Addr, bytes: Vec<u8> },
}

/// What the caller has to do after the coordinator has handled an event.
#[derive(Clone, Debug, PartialEq, Eq)]
pub enum Action {
    /// Nothing is written and nothing is closed.
    Nothing,
    /// The peer was admitted; keep its connection open.
    Admit,
    /// The peer's IP is banned for `remaining` more nanoseconds: tell the
    /// peer so and close its connection.
    Refuse { remaining: u128 },
    /// Write `payload` to each of `targets`; a failed write is ignored.
    Relay { targets: Vec<Addr>, payload: Vec<u8> },
    /// The sender got a strike and now has `count` of them.
    Strike { count: u32 },
    /// The sender reached the strike limit: tell it that it is banned and
    /// close its connection.
    Ban,
}

} // verus!
