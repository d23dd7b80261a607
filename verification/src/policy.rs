//! The moderation policy as a transition system on two finite maps.
//!
//! [`State`] is what the coordinator stands for; the functions below say, for
//! each event, which state follows and what becomes of the event.

use vstd::prelude::*;
use crate::types::{Action, Addr, Client, Ip, BAN_DURATION, MESSAGE_RATE, STRIKE_LIMIT};

verus! {

/// The coordinator's tables: the admitted peers by endpoint, and the start
/// of each ban by IP address.
pub struct State {
    pub clients: Map<Addr, Client>,
    pub bans: Map<Ip, u128>,
}

/// What becomes of a message.
pub enum Verdict {
    /// The sender holds no connection record: the message is dropped.
    Ignored,
    /// The message goes to every other peer.
    Relayed,
    /// The sender gets a strike and stays.
    Struck,
    /// The sender gets its last strike and is banned.
    Banned,
}

/// The time from `earlier` to `now`, and zero where the clock went backwards.
pub open spec fn elapsed(now: u128, earlier: u128) -> u128 {
    if now >= earlier {
        (now - earlier) as u128
    } else {
        0
    }
}

/// `ip` has a ban that is younger than [`BAN_DURATION`] at `now`.
pub open spec fn ban_active(bans: Map<Ip, u128>, ip: Ip, now: u128) -> bool {
    bans.dom().contains(ip) && elapsed(now, bans[ip]) < BAN_DURATION
}

/// The time that is left of the ban of `ip` at `now`.
pub open spec fn ban_remaining(bans: Map<Ip, u128>, ip: Ip, now: u128) -> u128
    recommends
        ban_active(bans, ip, now),
{
    (BAN_DURATION - elapsed(now, bans[ip])) as u128
}

/// The record of a peer admitted at `now`.
pub open spec fn fresh_client(now: u128) -> Client {
    Client { last_message: now, strike_count: 0 }
}

/// The state after a connection from `addr` at `now`.
///
/// Under an active ban nothing changes. Otherwise a ban of that IP, which
/// has then run out, is dropped, and the peer gets a fresh record, in place
/// of an older record for the same endpoint.
pub open spec fn after_connect(s: State, addr: Addr, now: u128) -> State {
    if ban_active(s.bans, addr.ip, now) {
        s
    } else {
        State { clients: s.clients.insert(addr, fresh_client(now)), bans: s.bans.remove(addr.ip) }
    }
}

/// The state after `addr` has disconnected.
pub open spec fn after_disconnect(s: State, addr: Addr) -> State {
    State { clients: s.clients.remove(addr), bans: s.bans }
}

/// What becomes of a message from `addr` that arrives at `now`; `is_text`
/// says whether its bytes are valid UTF-8.
pub open spec fn verdict(s: State, addr: Addr, is_text: bool, now: u128) -> Verdict {
    if !s.clients.dom().contains(addr) {
        Verdict::Ignored
    } else if elapsed(now, s.clients[addr].last_message) >= MESSAGE_RATE && is_text {
        Verdict::Relayed
    } else if s.clients[addr].strike_count + 1 >= STRIKE_LIMIT {
        Verdict::Banned
    } else {
        Verdict::Struck
    }
}

/// The record of `c` with one more strike.
pub open spec fn struck(c: Client) -> Client {
    Client { last_message: c.last_message, strike_count: (c.strike_count + 1) as u32 }
}

/// The state after a message from `addr` at `now`.
///
/// A relayed message changes nothing: the sender's reference time stays the
/// time of its admission.
pub open spec fn after_message(s: State, addr: Addr, is_text: bool, now: u128) -> State {
    match verdict(s, addr, is_text, now) {
        Verdict::Ignored | Verdict::Relayed => s,
        Verdict::Struck => State {
            clients: s.clients.insert(addr, struck(s.clients[addr])),
            bans: s.bans,
        },
        Verdict::Banned => State {
            clients: s.clients.remove(addr),
            bans: s.bans.insert(addr.ip, now),
        },
    }
}

/// Every admitted peer has fewer strikes than the limit.
pub open spec fn strikes_below_limit(s: State) -> bool {
    forall|a: Addr| #[trigger] s.clients.dom().contains(a) ==> s.clients[a].strike_count < STRIKE_LIMIT
}

/// The time from `earlier` to `now`, clamped to zero.
pub fn elapsed_since(now: u128, earlier: u128) -> (d: u128)
    ensures
        d == elapsed(now, earlier),
{
    if now >= earlier {
        now - earlier
    } else {
        0
    }
}

/// `action` is the answer owed to a connection from `addr` at `now`:
/// a refusal with the time left under an active ban, an admission otherwise.
pub open spec fn answers_connect(s: State, addr: Addr, now: u128, action: Action) -> bool {
    if ban_active(s.bans, addr.ip, now) {
        action == (Action::Refuse { remaining: ban_remaining(s.bans, addr.ip, now) })
    } else {
        action == Action::Admit
    }
}

/// `action` is the answer owed to the message `bytes` from `addr` at `now`.
///
/// A relayed message goes out unchanged, once to each admitted peer but the
/// sender; the order of the targets is left open.
pub open spec fn answers_message(
    s: State,
    addr: Addr,
    bytes: Seq<u8>,
    is_text: bool,
    now: u128,
    action: Action,
) -> bool {
    match verdict(s, addr, is_text, now) {
        Verdict::Ignored => action == Action::Nothing,
        Verdict::Relayed => match action {
            Action::Relay { targets, payload } => {
                &&& payload@ == bytes
                &&& targets@.no_duplicates()
                &&& targets@.to_set() == s.clients.dom().remove(addr)
            },
            _ => false,
        },
        Verdict::Struck => action == (Action::Strike { count: struck(s.clients[addr]).strike_count }),
        Verdict::Banned => action == Action::Ban,
    }
}

} // verus!
