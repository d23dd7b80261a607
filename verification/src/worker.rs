//! The connection worker's decision: which event follows a read.

use vstd::prelude::*;
use crate::types::{Addr, Event};

verus! {

/// What a worker does after one read: the event it reports, and whether it
/// is done with the connection.
#[derive(Clone, Debug, PartialEq, Eq)]
pub struct Step {
    pub event: Event,
    pub done: bool,
}

/// The read brought at least one byte.
pub open spec fn brought_data(read: Option<usize>) -> bool {
    read matches Some(n) && n > 0
}

/// The payloads of the messages that a worker reports for `msg` when every
/// read but the last brings `size` bytes.
pub open spec fn reads_of(msg: Seq<u8>, size: nat) -> Seq<Seq<u8>>
    decreases msg.len(),
{
    if size == 0 || msg.len() == 0 {
        Seq::empty()
    } else if msg.len() <= size {
        seq![msg]
    } else {
        seq![msg.take(size as int)] + reads_of(msg.skip(size as int), size)
    }
}

/// Chunk relay fidelity: a message that is read in pieces of at most `size`
/// bytes is reported in non-empty pieces which, put together in order, are
/// the message again: no byte is lost, added or moved.
pub proof fn law_chunks_rejoin(msg: Seq<u8>, size: nat)
    requires
        size > 0,
    ensures
        reads_of(msg, size).flatten() == msg,
        forall|i: int|
            0 <= i < reads_of(msg, size).len() ==> 0 < (#[trigger] reads_of(msg, size)[i]).len()
                <= size,
    decreases msg.len(),
{
    let chunks = reads_of(msg, size);
    if msg.len() == 0 {
        assert(chunks.flatten() =~= msg);
    } else if msg.len() <= size {
        assert(chunks.drop_first() =~= Seq::<Seq<u8>>::empty());
        assert(chunks.drop_first().flatten() =~= Seq::<u8>::empty());
        assert(chunks.flatten() =~= msg);
    } else {
        let head = msg.take(size as int);
        let rest = msg.skip(size as int);
        law_chunks_rejoin(rest, size);
        assert(chunks.first() == head);
        assert(chunks.drop_first() =~= reads_of(rest, size));
        assert(chunks.flatten() =~= head + reads_of(rest, size).flatten());
        assert(head + rest =~= msg);
        assert forall|i: int| 0 <= i < chunks.len() implies 0 < (#[trigger] chunks[i]).len()
            <= size by {
            if i > 0 {
                assert(chunks[i] == reads_of(rest, size)[i - 1]);
            }
        }
    }
}

/// Turns the outcome of one read into the worker's next step.
///
/// `read` is the number of bytes that the read put at the start of `buffer`,
/// or `None` where it failed. A read of one byte or more becomes a message
/// of exactly those bytes, and the worker goes on. An empty read (the peer
/// closed) and a failed read both become a disconnect, and the worker ends.
pub fn after_read(author: Addr, buffer: &Vec<u8>, read: Option<usize>) -> (step: Step)
    requires
        read matches Some(n) ==> n <= buffer@.len(),
    ensures
        step.done == !brought_data(read),
        brought_data(read) ==> match step.event {
            Event::NewMessage { author: a, bytes } => a == author && bytes@ == buffer@.subrange(
                0,
                read->0 as int,
            ),
            _ => false,
        },
        !brought_data(read) ==> step.event == (Event::Disconnected { author }),
{
    match read {
        Some(n) if n > 0 => {
            let mut bytes: Vec<u8> = Vec::with_capacity(n);
            let mut i: usize = 0;
            while i < n
                invariant
                    i <= n <= buffer@.len(),
                    bytes@ == buffer@.subrange(0, i as int),
                decreases n - i,
            {
                bytes.push(buffer[i]);
                assert(bytes@ =~= buffer@.subrange(0, i + 1));
                i += 1;
            }
            Step { event: Event::NewMessage { author, bytes }, done: false }
        },
        _ => Step { event: Event::Disconnected { author }, done: true },
    }
}

} // verus!
