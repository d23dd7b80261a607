//! The coordinator: the one owner of the connection table and the ban table.
//!
//! It handles one event at a time. Each handler changes the tables as the
//! policy says and returns the action that the caller has to perform.

use vstd::prelude::*;
use vstd::utf8::valid_utf8;
use crate::policy::{
    after_connect, after_disconnect, after_message, answers_connect, answers_message,
    elapsed_since, strikes_below_limit, State,
};
use crate::table::{has_key, keys_distinct, lemma_push, lemma_remove, lemma_slot, lemma_update, slot_of, table_of};
use crate::text::is_text;
use crate::types::{Action, Addr, Client, Event, Ip, BAN_DURATION, MESSAGE_RATE, STRIKE_LIMIT};

verus! {

/// The relay's state: who is connected, and which IP addresses are banned.
pub struct Coordinator {
    clients: Vec<(Addr, Client)>,
    bans: Vec<(Ip, u128)>,
}

impl View for Coordinator {
    type V = State;

    closed spec fn view(&self) -> State {
        State { clients: table_of(self.clients@), bans: table_of(self.bans@) }
    }
}

/// Some key among the first `n` pairs of `s` is `a`.
spec fn key_before(s: Seq<(Addr, Client)>, n: int, a: Addr) -> bool {
    exists|k: int| 0 <= k < n && k < s.len() && (#[trigger] s[k]).0 == a
}

impl Coordinator {
    /// No endpoint has two connection records, no IP address has two bans,
    /// and every record has fewer strikes than the limit.
    #[verifier::type_invariant]
    spec fn wf(self) -> bool {
        &&& keys_distinct(self.clients@)
        &&& keys_distinct(self.bans@)
        &&& forall|i: int|
            0 <= i < self.clients@.len() ==> (#[trigger] self.clients@[i]).1.strike_count
                < STRIKE_LIMIT
    }

    proof fn lemma_strikes_below_limit(self)
        requires
            self.wf(),
        ensures
            strikes_below_limit(self@),
    {
        assert forall|a: Addr| #[trigger] self@.clients.dom().contains(a) implies self@.clients[a].strike_count
            < STRIKE_LIMIT by {
            let i = slot_of(self.clients@, a);
            assert(self.clients@[i].1.strike_count < STRIKE_LIMIT);
        }
    }

    /// A coordinator with nobody connected and nobody banned.
    pub fn new() -> (c: Coordinator)
        ensures
            c@.clients == Map::<Addr, Client>::empty(),
            c@.bans == Map::<Ip, u128>::empty(),
            strikes_below_limit(c@),
    {
        let c = Coordinator { clients: Vec::new(), bans: Vec::new() };
        assert(c@.clients =~= Map::<Addr, Client>::empty());
        assert(c@.bans =~= Map::<Ip, u128>::empty());
        c
    }

    fn find_client(&self, addr: Addr) -> (r: Option<usize>)
        ensures
            match r {
                Some(i) => i < self.clients@.len() && self.clients@[i as int].0 == addr,
                None => !has_key(self.clients@, addr),
            },
    {
        let mut i: usize = 0;
        while i < self.clients.len()
            invariant
                i <= self.clients@.len(),
                forall|j: int| 0 <= j < i ==> (#[trigger] self.clients@[j]).0 != addr,
            decreases self.clients@.len() - i,
        {
            if self.clients[i].0 == addr {
                return Some(i);
            }
            i += 1;
        }
        None
    }

    fn find_ban(&self, ip: Ip) -> (r: Option<usize>)
        ensures
            match r {
                Some(i) => i < self.bans@.len() && self.bans@[i as int].0 == ip,
                None => !has_key(self.bans@, ip),
            },
    {
        let mut i: usize = 0;
        while i < self.bans.len()
            invariant
                i <= self.bans@.len(),
                forall|j: int| 0 <= j < i ==> (#[trigger] self.bans@[j]).0 != ip,
            decreases self.bans@.len() - i,
        {
            if self.bans[i].0 == ip {
                return Some(i);
            }
            i += 1;
        }
        None
    }

    /// The record of `addr`, if it is connected.
    pub fn client(&self, addr: Addr) -> (r: Option<Client>)
        ensures
            r == (if self@.clients.dom().contains(addr) {
                Some(self@.clients[addr])
            } else {
                None
            }),
            strikes_below_limit(self@),
    {
        proof {
            use_type_invariant(self);
            self.lemma_strikes_below_limit();
        }
        match self.find_client(addr) {
            Some(i) => {
                proof {
                    lemma_slot(self.clients@, i as int);
                }
                Some(self.clients[i].1)
            },
            None => None,
        }
    }

    /// The time at which the ban of `ip` began, if the table holds one.
    pub fn banned_at(&self, ip: Ip) -> (r: Option<u128>)
        ensures
            r == (if self@.bans.dom().contains(ip) {
                Some(self@.bans[ip])
            } else {
                None
            }),
    {
        proof {
            use_type_invariant(self);
        }
        match self.find_ban(ip) {
            Some(i) => {
                proof {
                    lemma_slot(self.bans@, i as int);
                }
                Some(self.bans[i].1)
            },
            None => None,
        }
    }

    /// The connected endpoints other than `addr`, each once.
    pub fn peers_except(&self, addr: Addr) -> (out: Vec<Addr>)
        ensures
            out@.no_duplicates(),
            out@.to_set() == self@.clients.dom().remove(addr),
    {
        proof {
            use_type_invariant(self);
        }
        let mut out: Vec<Addr> = Vec::new();
        let mut i: usize = 0;
        while i < self.clients.len()
            invariant
                i <= self.clients@.len(),
                keys_distinct(self.clients@),
                out@.no_duplicates(),
                forall|j: int|
                    0 <= j < out@.len() ==> #[trigger] out@[j] != addr && key_before(
                        self.clients@,
                        i as int,
                        out@[j],
                    ),
                forall|k: int|
                    0 <= k < i && (#[trigger] self.clients@[k]).0 != addr ==> out@.contains(
                        self.clients@[k].0,
                    ),
            decreases self.clients@.len() - i,
        {
            let a = self.clients[i].0;
            let ghost before = out@;
            if !(a == addr) {
                proof {
                    assert forall|j: int| 0 <= j < before.len() implies #[trigger] before[j] != a by {
                        assert(key_before(self.clients@, i as int, before[j]));
                        let k = choose|k: int|
                            0 <= k < i && k < self.clients@.len() && (#[trigger] self.clients@[k]).0
                                == before[j];
                        assert(self.clients@[k].0 != self.clients@[i as int].0);
                    }
                }
                out.push(a);
                proof {
                    assert(out@[before.len() as int] == a);
                    assert(self.clients@[i as int].0 == a);
                }
            }
            proof {
                assert forall|j: int| 0 <= j < out@.len() implies key_before(
                    self.clients@,
                    i + 1,
                    #[trigger] out@[j],
                ) by {
                    if j < before.len() {
                        assert(key_before(self.clients@, i as int, before[j]));
                        let k = choose|k: int|
                            0 <= k < i && k < self.clients@.len() && (#[trigger] self.clients@[k]).0
                                == before[j];
                        assert(self.clients@[k].0 == out@[j]);
                    } else {
                        assert(self.clients@[i as int].0 == out@[j]);
                    }
                }
                assert forall|k: int|
                    0 <= k < i + 1 && (#[trigger] self.clients@[k]).0 != addr implies out@.contains(
                    self.clients@[k].0,
                ) by {
                    if k < i {
                        assert(before.contains(self.clients@[k].0));
                        let j = choose|j: int| 0 <= j < before.len() && before[j] == self.clients@[k].0;
                        assert(out@[j] == self.clients@[k].0);
                    } else {
                        assert(out@[before.len() as int] == self.clients@[k].0);
                    }
                }
            }
            i += 1;
        }
        proof {
            let dom = self@.clients.dom().remove(addr);
            assert forall|a: Addr| out@.to_set().contains(a) <==> dom.contains(a) by {
                if out@.to_set().contains(a) {
                    let j = choose|j: int| 0 <= j < out@.len() && out@[j] == a;
                    assert(key_before(self.clients@, i as int, out@[j]));
                }
                if dom.contains(a) {
                    let k = slot_of(self.clients@, a);
                    assert(self.clients@[k].0 != addr);
                }
            }
            assert(out@.to_set() =~= dom);
        }
        out
    }

    fn put_client(&mut self, addr: Addr, client: Client)
        requires
            client.strike_count < STRIKE_LIMIT,
        ensures
            final(self)@.clients == old(self)@.clients.insert(addr, client),
            final(self)@.bans == old(self)@.bans,
    {
        proof {
            use_type_invariant(&*self);
        }
        let slot = self.find_client(addr);
        let mut clients = Vec::new();
        core::mem::swap(&mut clients, &mut self.clients);
        match slot {
            Some(i) => {
                proof {
                    lemma_update(clients@, i as int, client);
                }
                clients.set(i, (addr, client));
            },
            None => {
                proof {
                    lemma_push(clients@, addr, client);
                }
                clients.push((addr, client));
            },
        }
        self.clients = clients;
    }

    fn drop_client(&mut self, addr: Addr)
        ensures
            final(self)@.clients == old(self)@.clients.remove(addr),
            final(self)@.bans == old(self)@.bans,
    {
        proof {
            use_type_invariant(&*self);
        }
        match self.find_client(addr) {
            Some(i) => {
                let mut clients = Vec::new();
                core::mem::swap(&mut clients, &mut self.clients);
                proof {
                    lemma_remove(clients@, i as int);
                }
                clients.remove(i);
                self.clients = clients;
            },
            None => {
                assert(self@.clients.remove(addr) =~= self@.clients);
            },
        }
    }

    fn put_ban(&mut self, ip: Ip, at: u128)
        ensures
            final(self)@.clients == old(self)@.clients,
            final(self)@.bans == old(self)@.bans.insert(ip, at),
    {
        proof {
            use_type_invariant(&*self);
        }
        let slot = self.find_ban(ip);
        let mut bans = Vec::new();
        core::mem::swap(&mut bans, &mut self.bans);
        match slot {
            Some(i) => {
                proof {
                    lemma_update(bans@, i as int, at);
                }
                bans.set(i, (ip, at));
            },
            None => {
                proof {
                    lemma_push(bans@, ip, at);
                }
                bans.push((ip, at));
            },
        }
        self.bans = bans;
    }

    fn drop_ban(&mut self, ip: Ip)
        ensures
            final(self)@.clients == old(self)@.clients,
            final(self)@.bans == old(self)@.bans.remove(ip),
    {
        proof {
            use_type_invariant(&*self);
        }
        match self.find_ban(ip) {
            Some(i) => {
                let mut bans = Vec::new();
                core::mem::swap(&mut bans, &mut self.bans);
                proof {
                    lemma_remove(bans@, i as int);
                }
                bans.remove(i);
                self.bans = bans;
            },
            None => {
                assert(self@.bans.remove(ip) =~= self@.bans);
            },
        }
    }

    /// Handles a new connection from `addr` at `now`.
    ///
    /// Under an active ban of its IP address the peer is refused and nothing
    /// changes. Otherwise a ban that has run out is dropped and the peer is
    /// admitted with no strikes, in place of an older record for the same
    /// endpoint.
    pub fn on_connected(&mut self, addr: Addr, now: u128) -> (action: Action)
        ensures
            final(self)@ == after_connect(old(self)@, addr, now),
            answers_connect(old(self)@, addr, now, action),
            strikes_below_limit(final(self)@),
    {
        if let Some(banned_at) = self.banned_at(addr.ip) {
            let waited = elapsed_since(now, banned_at);
            if waited < BAN_DURATION {
                proof {
                    use_type_invariant(&*self);
                    self.lemma_strikes_below_limit();
                }
                return Action::Refuse { remaining: BAN_DURATION - waited };
            }
        }
        self.drop_ban(addr.ip);
        self.put_client(addr, Client { last_message: now, strike_count: 0 });
        proof {
            use_type_invariant(&*self);
            self.lemma_strikes_below_limit();
        }
        Action::Admit
    }

    /// Handles the end of the connection from `addr`: its record, if there
    /// is one, is removed, and nothing else changes.
    pub fn on_disconnected(&mut self, addr: Addr)
        ensures
            final(self)@ == after_disconnect(old(self)@, addr),
            strikes_below_limit(final(self)@),
    {
        self.drop_client(addr);
        proof {
            use_type_invariant(&*self);
            self.lemma_strikes_below_limit();
        }
    }

    /// Handles the bytes of one read from `addr`, arrived at `now`.
    ///
    /// From an unknown endpoint they are dropped. Text that comes no sooner
    /// than the message rate allows is relayed to every other peer. Anything
    /// else is a strike, and the strike that reaches the limit bans the
    /// sender's IP address from `now` on and removes its record.
    pub fn on_message(&mut self, addr: Addr, bytes: Vec<u8>, now: u128) -> (action: Action)
        ensures
            final(self)@ == after_message(old(self)@, addr, valid_utf8(bytes@), now),
            answers_message(old(self)@, addr, bytes@, valid_utf8(bytes@), now, action),
            strikes_below_limit(final(self)@),
    {
        let action = match self.client(addr) {
            None => Action::Nothing,
            Some(client) => {
                proof {
                    use_type_invariant(&*self);
                    self.lemma_strikes_below_limit();
                }
                let waited = elapsed_since(now, client.last_message);
                if waited >= MESSAGE_RATE && is_text(&bytes) {
                    let targets = self.peers_except(addr);
                    Action::Relay { targets, payload: bytes }
                } else {
                    let count: u32 = client.strike_count + 1;
                    if count >= STRIKE_LIMIT {
                        self.drop_client(addr);
                        self.put_ban(addr.ip, now);
                        Action::Ban
                    } else {
                        self.put_client(
                            addr,
                            Client { last_message: client.last_message, strike_count: count },
                        );
                        Action::Strike { count }
                    }
                }
            },
        };
        proof {
            use_type_invariant(&*self);
            self.lemma_strikes_below_limit();
        }
        action
    }

    /// Handles one event at `now` and says what the caller has to do.
    pub fn handle(&mut self, event: Event, now: u128) -> (action: Action)
        ensures
            strikes_below_limit(final(self)@),
            match event {
                Event::Connected { author } => {
                    &&& final(self)@ == after_connect(old(self)@, author, now)
                    &&& answers_connect(old(self)@, author, now, action)
                },
                Event::Disconnected { author } => {
                    &&& final(self)@ == after_disconnect(old(self)@, author)
                    &&& action == Action::Nothing
                },
                Event::NewMessage { author, bytes } => {
                    &&& final(self)@ == after_message(old(self)@, author, valid_utf8(bytes@), now)
                    &&& answers_message(old(self)@, author, bytes@, valid_utf8(bytes@), now, action)
                },
            },
    {
        match event {
            Event::Connected { author } => self.on_connected(author, now),
            Event::Disconnected { author } => {
                self.on_disconnected(author);
                Action::Nothing
            },
            Event::NewMessage { author, bytes } => self.on_message(author, bytes, now),
        }
    }
}

} // verus!
