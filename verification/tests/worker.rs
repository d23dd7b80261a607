use chat_relay::{after_read, Action, Addr, Coordinator, Event, Ip, Step, READ_CHUNK};

fn peer(last: u32, port: u16) -> Addr {
    Addr { ip: Ip::V4(0x7f00_0000 + last), port }
}

#[test]
fn read_with_data_becomes_a_message_of_those_bytes() {
    let a = peer(1, 9);
    let mut buffer = vec![0u8; READ_CHUNK];
    buffer[..5].copy_from_slice(b"hello");
    buffer[5] = b'!';
    let step = after_read(a, &buffer, Some(5));
    assert_eq!(
        step,
        Step { event: Event::NewMessage { author: a, bytes: b"hello".to_vec() }, done: false }
    );
    let whole = after_read(a, &buffer, Some(READ_CHUNK));
    assert_eq!(
        whole,
        Step { event: Event::NewMessage { author: a, bytes: buffer.clone() }, done: false }
    );
    let one = after_read(a, &buffer, Some(1));
    assert_eq!(one, Step { event: Event::NewMessage { author: a, bytes: vec![b'h'] }, done: false });
}

#[test]
fn empty_read_becomes_a_disconnect() {
    let a = peer(1, 9);
    let buffer = vec![7u8; READ_CHUNK];
    assert_eq!(
        after_read(a, &buffer, Some(0)),
        Step { event: Event::Disconnected { author: a }, done: true }
    );
}

#[test]
fn failed_read_becomes_a_disconnect() {
    let a = peer(1, 9);
    let buffer = vec![7u8; READ_CHUNK];
    assert_eq!(
        after_read(a, &buffer, None),
        Step { event: Event::Disconnected { author: a }, done: true }
    );
    assert_eq!(
        after_read(a, &Vec::new(), Some(0)),
        Step { event: Event::Disconnected { author: a }, done: true }
    );
}

#[test]
fn long_message_arrives_whole_and_in_order() {
    let (sender, watcher) = (peer(1, 9), peer(2, 9));
    let message: Vec<u8> = (0..200u32).map(|k| b'a' + (k % 26) as u8).collect();
    let second: u128 = 1_000_000_000;

    let mut c = Coordinator::new();
    assert_eq!(c.handle(Event::Connected { author: sender }, 0), Action::Admit);
    assert_eq!(c.handle(Event::Connected { author: watcher }, 0), Action::Admit);

    let mut received: Vec<u8> = Vec::new();
    let mut deliveries = 0;
    let mut buffer = vec![0u8; READ_CHUNK];
    let mut at = 0;
    let mut now = second;
    loop {
        let n = (message.len() - at).min(READ_CHUNK);
        buffer[..n].copy_from_slice(&message[at..at + n]);
        at += n;
        let step = after_read(sender, &buffer, Some(n));
        let done = step.done;
        match c.handle(step.event, now) {
            Action::Relay { targets, payload } => {
                assert_eq!(targets, vec![watcher]);
                received.extend_from_slice(&payload);
                deliveries += 1;
            }
            Action::Nothing => assert!(done),
            other => panic!("unexpected action: {:?}", other),
        }
        if done {
            break;
        }
        now += 1;
    }
    assert_eq!(deliveries, 4);
    assert_eq!(received.len(), 200);
    assert_eq!(received, message);
    assert_eq!(c.client(sender), None);
}
