//! What holds of the policy over all states and inputs.

use vstd::prelude::*;
use crate::policy::{
    after_connect, after_disconnect, after_message, answers_connect, answers_message, ban_active,
    elapsed, fresh_client, strikes_below_limit, verdict, State, Verdict,
};
use crate::types::{Action, Addr, BAN_DURATION, MESSAGE_RATE, STRIKE_LIMIT};

verus! {

/// The state after a run of non-text messages from `addr`, one at each of
/// `times`, in order.
pub open spec fn after_invalid_run(s: State, addr: Addr, times: Seq<u128>) -> State
    decreases times.len(),
{
    if times.len() == 0 {
        s
    } else {
        after_message(after_invalid_run(s, addr, times.drop_last()), addr, false, times.last())
    }
}

/// Broadcast exclusion: text from an admitted peer that keeps the message
/// rate goes out unchanged to every other admitted peer, once to each, and
/// never back to its sender. Every target still holds a connection record
/// afterwards, and the tables stay as they were.
pub proof fn law_relay_reaches_all_but_sender(
    s: State,
    addr: Addr,
    bytes: Seq<u8>,
    now: u128,
    action: Action,
)
    requires
        s.clients.dom().contains(addr),
        elapsed(now, s.clients[addr].last_message) >= MESSAGE_RATE,
        answers_message(s, addr, bytes, true, now, action),
    ensures
        after_message(s, addr, true, now) == s,
        match action {
            Action::Relay { targets, payload } => {
                &&& payload@ == bytes
                &&& targets@.no_duplicates()
                &&& !targets@.contains(addr)
                &&& forall|peer: Addr|
                    peer != addr && s.clients.dom().contains(peer) ==> targets@.contains(peer)
                &&& forall|i: int|
                    0 <= i < targets@.len() ==> after_message(
                        s,
                        addr,
                        true,
                        now,
                    ).clients.dom().contains(#[trigger] targets@[i])
            },
            _ => false,
        },
{
    match action {
        Action::Relay { targets, payload } => {
            let others = s.clients.dom().remove(addr);
            assert(targets@.to_set() == others);
            assert forall|peer: Addr|
                peer != addr && s.clients.dom().contains(peer) implies targets@.contains(peer) by {
                assert(others.contains(peer));
                assert(targets@.to_set().contains(peer));
            }
            assert forall|i: int| 0 <= i < targets@.len() implies s.clients.dom().contains(
                #[trigger] targets@[i],
            ) by {
                assert(targets@.contains(targets@[i]));
                assert(targets@.to_set().contains(targets@[i]));
            }
            if targets@.contains(addr) {
                assert(targets@.to_set().contains(addr));
            }
        },
        _ => {},
    }
}

/// Ban admission: while a ban of the peer's IP address is younger than the
/// ban duration, a connection is refused with the time that is left and
/// changes nothing; from then on the ban is gone and the peer is admitted
/// with no strikes.
pub proof fn law_ban_decides_admission(s: State, addr: Addr, now: u128, action: Action)
    requires
        s.bans.dom().contains(addr.ip),
        answers_connect(s, addr, now, action),
    ensures
        elapsed(now, s.bans[addr.ip]) < BAN_DURATION ==> {
            &&& after_connect(s, addr, now) == s
            &&& action == (Action::Refuse {
                remaining: (BAN_DURATION - elapsed(now, s.bans[addr.ip])) as u128,
            })
        },
        elapsed(now, s.bans[addr.ip]) >= BAN_DURATION ==> {
            &&& action == Action::Admit
            &&& !after_connect(s, addr, now).bans.dom().contains(addr.ip)
            &&& after_connect(s, addr, now).clients.dom().contains(addr)
            &&& after_connect(s, addr, now).clients[addr] == fresh_client(now)
        },
{
}

/// Whoever is admitted leaves no ban of its IP address behind: a record
/// that a connection creates or renews never stands beside a ban of the
/// same IP address.
pub proof fn law_admission_clears_ban(s: State, addr: Addr, now: u128)
    requires
        !ban_active(s.bans, addr.ip, now),
    ensures
        after_connect(s, addr, now).clients.dom().contains(addr),
        !after_connect(s, addr, now).bans.dom().contains(addr.ip),
        forall|other: Addr|
            other != addr ==> (after_connect(s, addr, now).clients.dom().contains(other)
                <==> s.clients.dom().contains(other)),
{
}

/// A peer that was banned at `banned_at` cannot come back from the same IP
/// address, on whatever port, before the ban duration has passed; repeated
/// attempts do not move the start of the ban.
pub proof fn law_banned_peer_stays_out(
    s: State,
    addr: Addr,
    is_text: bool,
    banned_at: u128,
    port: u16,
    now: u128,
)
    requires
        verdict(s, addr, is_text, banned_at) is Banned,
        elapsed(now, banned_at) < BAN_DURATION,
    ensures
        ({
            let banned = after_message(s, addr, is_text, banned_at);
            let again = Addr { ip: addr.ip, port };
            &&& !banned.clients.dom().contains(addr)
            &&& banned.bans[addr.ip] == banned_at
            &&& ban_active(banned.bans, addr.ip, now)
            &&& after_connect(banned, again, now) == banned
        }),
{
}

/// Strike escalation, below the limit: non-text messages that leave the
/// peer under the strike limit each add one strike, keep the peer connected
/// and ban nobody.
pub proof fn law_strikes_accumulate(s: State, addr: Addr, times: Seq<u128>)
    requires
        s.clients.dom().contains(addr),
        s.clients[addr].strike_count + times.len() < STRIKE_LIMIT,
    ensures
        after_invalid_run(s, addr, times).clients.dom().contains(addr),
        after_invalid_run(s, addr, times).clients[addr].strike_count == s.clients[addr].strike_count
            + times.len(),
        after_invalid_run(s, addr, times).clients[addr].last_message
            == s.clients[addr].last_message,
        after_invalid_run(s, addr, times).bans == s.bans,
    decreases times.len(),
{
    if times.len() > 0 {
        law_strikes_accumulate(s, addr, times.drop_last());
    }
}

/// Strike escalation, at the limit: the non-text message that brings the
/// peer's strikes to the limit removes its record and bans its IP address
/// from the time of that message.
pub proof fn law_last_strike_bans(s: State, addr: Addr, times: Seq<u128>)
    requires
        s.clients.dom().contains(addr),
        times.len() > 0,
        s.clients[addr].strike_count + times.len() == STRIKE_LIMIT,
    ensures
        !after_invalid_run(s, addr, times).clients.dom().contains(addr),
        after_invalid_run(s, addr, times).bans.dom().contains(addr.ip),
        after_invalid_run(s, addr, times).bans[addr.ip] == times.last(),
        verdict(after_invalid_run(s, addr, times.drop_last()), addr, false, times.last())
            is Banned,
{
    law_strikes_accumulate(s, addr, times.drop_last());
}

/// Idempotent disconnect: the disconnect of an endpoint that holds no
/// connection record changes nothing, so a second disconnect changes
/// nothing either.
pub proof fn law_disconnect_of_unknown_changes_nothing(s: State, addr: Addr)
    ensures
        !s.clients.dom().contains(addr) ==> after_disconnect(s, addr) == s,
        after_disconnect(after_disconnect(s, addr), addr) == after_disconnect(s, addr),
{
    if !s.clients.dom().contains(addr) {
        assert(s.clients.remove(addr) =~= s.clients);
    }
    assert(s.clients.remove(addr).remove(addr) =~= s.clients.remove(addr));
}

/// A message from an endpoint that holds no connection record, such as one
/// that arrives after its sender was removed, changes nothing and causes no
/// write.
pub proof fn law_message_of_unknown_is_dropped(
    s: State,
    addr: Addr,
    bytes: Seq<u8>,
    is_text: bool,
    now: u128,
    action: Action,
)
    requires
        !s.clients.dom().contains(addr),
        answers_message(s, addr, bytes, is_text, now, action),
    ensures
        after_message(s, addr, is_text, now) == s,
        action == Action::Nothing,
{
}

/// `other` is connected in `t` exactly if it is in `s`, with the same record.
pub open spec fn same_record(s: State, t: State, other: Addr) -> bool {
    &&& t.clients.dom().contains(other) <==> s.clients.dom().contains(other)
    &&& s.clients.dom().contains(other) ==> t.clients[other] == s.clients[other]
}

/// An event touches no record but its author's: every other endpoint stays
/// connected or unknown as it was, with the record it had. A disconnect
/// leaves the bans alone, and a message changes at most the ban of its
/// author's IP address.
pub proof fn law_events_touch_only_their_author(
    s: State,
    addr: Addr,
    other: Addr,
    is_text: bool,
    now: u128,
)
    requires
        other != addr,
    ensures
        same_record(s, after_connect(s, addr, now), other),
        same_record(s, after_disconnect(s, addr), other),
        same_record(s, after_message(s, addr, is_text, now), other),
        after_disconnect(s, addr).bans == s.bans,
        other.ip != addr.ip ==> {
            &&& after_message(s, addr, is_text, now).bans.dom().contains(other.ip)
                <==> s.bans.dom().contains(other.ip)
            &&& s.bans.dom().contains(other.ip) ==> after_message(s, addr, is_text, now).bans[other.ip]
                == s.bans[other.ip]
        },
{
}

/// No event lets an admitted peer reach the strike limit: whichever event
/// comes, every record of the next state is below it.
pub proof fn law_strikes_stay_below_limit(s: State, addr: Addr, is_text: bool, now: u128)
    requires
        strikes_below_limit(s),
    ensures
        strikes_below_limit(after_connect(s, addr, now)),
        strikes_below_limit(after_disconnect(s, addr)),
        strikes_below_limit(after_message(s, addr, is_text, now)),
{
}

} // verus!
