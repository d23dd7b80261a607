use chat_relay::{Action, Addr, Client, Coordinator, Event, Ip};
use chat_relay::{BAN_DURATION, MESSAGE_RATE, STRIKE_LIMIT};

const SECOND: u128 = 1_000_000_000;
const MINUTE: u128 = 60 * SECOND;

fn peer(last: u32, port: u16) -> Addr {
    Addr { ip: Ip::V4(0x0a00_0000 + last), port }
}

fn sorted(mut v: Vec<Addr>) -> Vec<(u32, u16)> {
    let mut out: Vec<(u32, u16)> = v
        .drain(..)
        .map(|a| match a.ip {
            Ip::V4(x) => (x, a.port),
            Ip::V6(_) => (0, a.port),
        })
        .collect();
    out.sort();
    out
}

fn ban(c: &mut Coordinator, who: Addr, connect_at: u128, banned_at: u128) {
    assert_eq!(c.on_connected(who, connect_at), Action::Admit);
    for k in 1..STRIKE_LIMIT {
        assert_eq!(c.on_message(who, vec![0xff], banned_at), Action::Strike { count: k });
    }
    assert_eq!(c.on_message(who, vec![0xff], banned_at), Action::Ban);
}

#[test]
fn constants_have_their_values() {
    assert_eq!(BAN_DURATION, 600 * SECOND);
    assert_eq!(MESSAGE_RATE, SECOND);
    assert_eq!(STRIKE_LIMIT, 10);
    assert_eq!(chat_relay::READ_CHUNK, 64);
}

#[test]
fn new_coordinator_is_empty() {
    let c = Coordinator::new();
    assert_eq!(c.client(peer(1, 1)), None);
    assert_eq!(c.banned_at(Ip::V4(0x0a00_0001)), None);
    assert!(c.peers_except(peer(1, 1)).is_empty());
}

#[test]
fn connect_records_a_fresh_client() {
    let mut c = Coordinator::new();
    assert_eq!(c.on_connected(peer(1, 4000), 77), Action::Admit);
    assert_eq!(c.client(peer(1, 4000)), Some(Client { last_message: 77, strike_count: 0 }));
    assert_eq!(c.client(peer(1, 4001)), None);
}

#[test]
fn broadcast_reaches_all_but_the_sender() {
    let (a, b, d) = (peer(1, 1000), peer(2, 1000), peer(3, 1000));
    let mut c = Coordinator::new();
    for p in [a, b, d] {
        assert_eq!(c.on_connected(p, 0), Action::Admit);
    }
    match c.on_message(a, b"hello".to_vec(), SECOND) {
        Action::Relay { targets, payload } => {
            assert_eq!(payload, b"hello".to_vec());
            assert_eq!(sorted(targets), sorted(vec![b, d]));
        }
        other => panic!("not relayed: {:?}", other),
    }
    assert_eq!(c.client(a), Some(Client { last_message: 0, strike_count: 0 }));
}

#[test]
fn broadcast_with_a_single_peer_has_no_targets() {
    let a = peer(1, 1000);
    let mut c = Coordinator::new();
    c.on_connected(a, 0);
    assert_eq!(
        c.on_message(a, b"alone".to_vec(), 2 * SECOND),
        Action::Relay { targets: vec![], payload: b"alone".to_vec() }
    );
}

#[test]
fn multibyte_text_is_relayed_and_broken_text_is_a_strike() {
    let (a, b) = (peer(1, 1), peer(2, 1));
    let mut c = Coordinator::new();
    c.on_connected(a, 0);
    c.on_connected(b, 0);
    let text = "gr\u{fc}\u{df}e \u{2603}".as_bytes().to_vec();
    assert_eq!(
        c.on_message(a, text.clone(), SECOND),
        Action::Relay { targets: vec![b], payload: text.clone() }
    );
    let mut cut = text.clone();
    cut.truncate(3);
    assert_eq!(c.on_message(a, cut, SECOND), Action::Strike { count: 1 });
    assert_eq!(c.on_message(a, vec![0xc0, 0x80], SECOND), Action::Strike { count: 2 });
    assert_eq!(c.on_message(a, vec![], SECOND), Action::Relay { targets: vec![b], payload: vec![] });
}

#[test]
fn message_before_the_rate_has_passed_is_a_strike() {
    let (a, b) = (peer(1, 1), peer(2, 1));
    let mut c = Coordinator::new();
    c.on_connected(a, 10 * SECOND);
    c.on_connected(b, 10 * SECOND);
    assert_eq!(c.on_message(a, b"hi".to_vec(), 11 * SECOND - 1), Action::Strike { count: 1 });
    assert_eq!(c.client(a), Some(Client { last_message: 10 * SECOND, strike_count: 1 }));
    assert_eq!(
        c.on_message(a, b"hi".to_vec(), 11 * SECOND),
        Action::Relay { targets: vec![b], payload: b"hi".to_vec() }
    );
}

#[test]
fn relayed_message_does_not_move_the_reference_time() {
    let (a, b) = (peer(1, 1), peer(2, 1));
    let mut c = Coordinator::new();
    c.on_connected(a, 0);
    c.on_connected(b, 0);
    for k in 0..5u128 {
        assert_eq!(
            c.on_message(a, b"x".to_vec(), SECOND + k),
            Action::Relay { targets: vec![b], payload: b"x".to_vec() }
        );
    }
    assert_eq!(c.client(a), Some(Client { last_message: 0, strike_count: 0 }));
}

#[test]
fn clock_that_went_backwards_counts_as_no_time_passed() {
    let a = peer(1, 1);
    let mut c = Coordinator::new();
    c.on_connected(a, 100 * SECOND);
    assert_eq!(c.on_message(a, b"hi".to_vec(), 50 * SECOND), Action::Strike { count: 1 });

    let mut d = Coordinator::new();
    ban(&mut d, a, 0, 100 * SECOND);
    assert_eq!(d.on_connected(a, 40 * SECOND), Action::Refuse { remaining: BAN_DURATION });
    assert_eq!(d.banned_at(a.ip), Some(100 * SECOND));
}

#[test]
fn nine_invalid_payloads_leave_the_peer_connected() {
    let a = peer(1, 1);
    let mut c = Coordinator::new();
    c.on_connected(a, 0);
    for k in 1..=9u32 {
        assert_eq!(c.on_message(a, vec![0xff, 0xfe], 5 * SECOND), Action::Strike { count: k });
    }
    assert_eq!(c.client(a), Some(Client { last_message: 0, strike_count: 9 }));
    assert_eq!(c.banned_at(a.ip), None);
}

#[test]
fn tenth_invalid_payload_bans_the_peer() {
    let (a, b) = (peer(1, 1), peer(2, 1));
    let mut c = Coordinator::new();
    c.on_connected(a, 0);
    c.on_connected(b, 0);
    for _ in 0..9 {
        c.on_message(a, vec![0xff], 5 * SECOND);
    }
    assert_eq!(c.on_message(a, vec![0xff], 7 * SECOND), Action::Ban);
    assert_eq!(c.client(a), None);
    assert_eq!(c.banned_at(a.ip), Some(7 * SECOND));
    assert_eq!(c.on_message(a, b"late".to_vec(), 8 * SECOND), Action::Nothing);
    assert_eq!(
        c.on_message(b, b"still here".to_vec(), 8 * SECOND),
        Action::Relay { targets: vec![], payload: b"still here".to_vec() }
    );
}

#[test]
fn banned_ip_is_refused_with_the_time_left() {
    let a = peer(9, 5000);
    let t0 = 1_000 * SECOND;
    let mut c = Coordinator::new();
    ban(&mut c, a, 0, t0);
    assert_eq!(c.on_connected(a, t0 + 5 * MINUTE), Action::Refuse { remaining: 300 * SECOND });
    assert_eq!(c.client(a), None);
    assert_eq!(c.banned_at(a.ip), Some(t0));
}

#[test]
fn banned_ip_is_admitted_after_the_ban() {
    let a = peer(9, 5000);
    let t0 = 1_000 * SECOND;
    let mut c = Coordinator::new();
    ban(&mut c, a, 0, t0);
    assert_eq!(c.on_connected(a, t0 + 11 * MINUTE), Action::Admit);
    assert_eq!(
        c.client(a),
        Some(Client { last_message: t0 + 11 * MINUTE, strike_count: 0 })
    );
    assert_eq!(c.banned_at(a.ip), None);
}

#[test]
fn ban_ends_exactly_at_the_ban_duration() {
    let a = peer(9, 5000);
    let t0 = 42;
    let mut c = Coordinator::new();
    ban(&mut c, a, 0, t0);
    assert_eq!(c.on_connected(a, t0 + BAN_DURATION - 1), Action::Refuse { remaining: 1 });
    assert_eq!(c.on_connected(a, t0), Action::Refuse { remaining: BAN_DURATION });
    assert_eq!(c.on_connected(a, t0 + BAN_DURATION), Action::Admit);
}

#[test]
fn ban_covers_every_port_of_the_ip() {
    let a = peer(9, 5000);
    let other_port = peer(9, 6000);
    let other_ip = peer(8, 5000);
    let mut c = Coordinator::new();
    ban(&mut c, a, 0, SECOND);
    assert_eq!(
        c.on_connected(other_port, SECOND + MINUTE),
        Action::Refuse { remaining: 9 * MINUTE }
    );
    assert_eq!(c.on_connected(other_ip, SECOND + MINUTE), Action::Admit);
    let v6 = Addr { ip: Ip::V6(0x0a00_0009), port: 5000 };
    assert_eq!(c.on_connected(v6, SECOND + MINUTE), Action::Admit);
}

#[test]
fn refused_attempts_do_not_extend_the_ban() {
    let a = peer(9, 5000);
    let mut c = Coordinator::new();
    ban(&mut c, a, 0, 0);
    for k in 1..=9u128 {
        assert_eq!(
            c.on_connected(a, k * MINUTE),
            Action::Refuse { remaining: (10 - k) * MINUTE }
        );
        assert_eq!(c.banned_at(a.ip), Some(0));
    }
    assert_eq!(c.on_connected(a, 10 * MINUTE), Action::Admit);
}

#[test]
fn second_connection_of_a_banned_ip_stays_until_it_leaves() {
    let first = peer(9, 5000);
    let second = peer(9, 6000);
    let watcher = peer(1, 1);
    let mut c = Coordinator::new();
    c.on_connected(second, 0);
    c.on_connected(watcher, 0);
    ban(&mut c, first, 0, SECOND);
    assert_eq!(c.client(second), Some(Client { last_message: 0, strike_count: 0 }));
    assert_eq!(
        c.on_message(second, b"hi".to_vec(), 2 * SECOND),
        Action::Relay { targets: vec![watcher], payload: b"hi".to_vec() }
    );
}

#[test]
fn disconnect_removes_the_record() {
    let (a, b) = (peer(1, 1), peer(2, 1));
    let mut c = Coordinator::new();
    c.on_connected(a, 0);
    c.on_connected(b, 0);
    c.on_disconnected(a);
    assert_eq!(c.client(a), None);
    assert_eq!(c.client(b), Some(Client { last_message: 0, strike_count: 0 }));
    assert_eq!(
        c.on_message(b, b"anyone?".to_vec(), SECOND),
        Action::Relay { targets: vec![], payload: b"anyone?".to_vec() }
    );
}

#[test]
fn disconnect_of_an_unknown_address_changes_nothing() {
    let (a, b, ghost) = (peer(1, 1), peer(2, 1), peer(3, 1));
    let mut c = Coordinator::new();
    c.on_connected(a, 0);
    c.on_connected(b, 3);
    c.on_message(b, vec![0xff], 3);
    ban(&mut c, peer(4, 1), 0, 9);
    c.on_disconnected(ghost);
    c.on_disconnected(ghost);
    assert_eq!(c.handle(Event::Disconnected { author: ghost }, 5), Action::Nothing);
    assert_eq!(c.client(a), Some(Client { last_message: 0, strike_count: 0 }));
    assert_eq!(c.client(b), Some(Client { last_message: 3, strike_count: 1 }));
    assert_eq!(c.client(ghost), None);
    assert_eq!(c.banned_at(peer(4, 1).ip), Some(9));
    assert_eq!(sorted(c.peers_except(ghost)), sorted(vec![a, b]));
}

#[test]
fn message_of_an_unknown_address_is_dropped() {
    let (a, ghost) = (peer(1, 1), peer(3, 1));
    let mut c = Coordinator::new();
    c.on_connected(a, 0);
    assert_eq!(c.on_message(ghost, b"boo".to_vec(), 5 * SECOND), Action::Nothing);
    assert_eq!(c.on_message(ghost, vec![0xff], 5 * SECOND), Action::Nothing);
    assert_eq!(c.client(ghost), None);
    assert_eq!(c.banned_at(ghost.ip), None);
}

#[test]
fn reconnect_on_the_same_address_replaces_the_record() {
    let a = peer(1, 1);
    let mut c = Coordinator::new();
    c.on_connected(a, 0);
    c.on_message(a, vec![0xff], 0);
    c.on_message(a, vec![0xff], 0);
    assert_eq!(c.client(a), Some(Client { last_message: 0, strike_count: 2 }));
    assert_eq!(c.on_connected(a, 30), Action::Admit);
    assert_eq!(c.client(a), Some(Client { last_message: 30, strike_count: 0 }));
    assert!(c.peers_except(peer(2, 2)) == vec![a]);
}

#[test]
fn handle_dispatches_each_event() {
    let (a, b) = (peer(1, 1), peer(2, 1));
    let mut c = Coordinator::new();
    assert_eq!(c.handle(Event::Connected { author: a }, 0), Action::Admit);
    assert_eq!(c.handle(Event::Connected { author: b }, 0), Action::Admit);
    assert_eq!(
        c.handle(Event::NewMessage { author: a, bytes: b"yo".to_vec() }, SECOND),
        Action::Relay { targets: vec![b], payload: b"yo".to_vec() }
    );
    assert_eq!(
        c.handle(Event::NewMessage { author: a, bytes: vec![0x80] }, SECOND),
        Action::Strike { count: 1 }
    );
    assert_eq!(c.handle(Event::Disconnected { author: b }, SECOND), Action::Nothing);
    assert_eq!(c.client(b), None);
}

#[test]
fn table_never_lists_an_address_twice_and_targets_are_connected() {
    let mut c = Coordinator::new();
    let nobody = peer(200, 1);
    let mut seed: u32 = 12345;
    for step in 0..2000u128 {
        seed = seed.wrapping_mul(1_103_515_245).wrapping_add(12_345);
        let who = peer((seed >> 16) % 6, ((seed >> 8) % 3) as u16);
        let now = step * (SECOND / 4);
        let event = match (seed >> 24) % 4 {
            0 => Event::Connected { author: who },
            1 => Event::Disconnected { author: who },
            2 => Event::NewMessage { author: who, bytes: b"text".to_vec() },
            _ => Event::NewMessage { author: who, bytes: vec![0xff] },
        };
        let action = c.handle(event, now);
        let listed = c.peers_except(nobody);
        let mut unique = sorted(listed.clone());
        unique.dedup();
        assert_eq!(unique.len(), listed.len());
        for p in &listed {
            let record = c.client(*p).expect("listed peers have a record");
            assert!(record.strike_count < STRIKE_LIMIT);
        }
        match action {
            Action::Relay { targets, payload } => {
                assert_eq!(payload, b"text".to_vec());
                assert!(!targets.contains(&who));
                for t in &targets {
                    assert!(c.client(*t).is_some());
                }
                assert_eq!(targets.len() + 1, listed.len());
            }
            Action::Ban => {
                assert_eq!(c.client(who), None);
                assert_eq!(c.banned_at(who.ip), Some(now));
            }
            Action::Refuse { remaining } => {
                assert!(remaining > 0 && remaining <= BAN_DURATION);
                assert!(c.banned_at(who.ip).is_some());
            }
            _ => {}
        }
    }
}
