//! The decision core of a TCP broadcast relay.
//!
//! Every byte chunk that a connected peer sends is forwarded to all other
//! connected peers. Peers that flood or send non-text payloads collect
//! strikes; at the strike limit their IP address is banned for a fixed time.
//!
//! The crate holds no sockets, threads or clocks. The caller reads from the
//! network, hands each event and the current time to the [`Coordinator`],
//! and performs the [`Action`] it gets back.

pub mod coordinator;
pub mod laws;
pub mod policy;
pub mod table;
pub mod text;
pub mod types;
pub mod worker;

pub use coordinator::Coordinator;
pub use types::{Action, Addr, Client, Event, Ip};
pub use types::{BAN_DURATION, MESSAGE_RATE, READ_CHUNK, STRIKE_LIMIT};
pub use worker::{after_read, Step};
