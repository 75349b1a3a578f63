//! Verified core of a stock-quote streaming service: the line protocol that a
//! client uses to subscribe, the replies of the server, the per-client
//! streaming session, the client's receive loop, and the quote volume rule.

pub mod clock;
pub mod command;
pub mod market;
pub mod receiver;
pub mod reply;
pub mod session;
pub mod text;

use vstd::prelude::*;

verus! {

/// The TCP port on which the server listens for commands.
pub const SERVER_TCP_PORT: u16 = 7777;

/// How often the generator makes new quotes, in milliseconds.
pub const QUOTE_INTERVAL_MS: u64 = 500;

/// How often a client sends a PING, in seconds.
pub const PING_INTERVAL_SECS: u64 = 2;

/// How long the client's PING loop sleeps between two looks at whether it
/// should stop, in milliseconds.
pub const PING_TICK_MS: u64 = 100;

/// After how many seconds without a PING the server drops a client.
pub const PING_TIMEOUT_SECS: u64 = 5;

/// The largest UDP datagram that is read.
pub const UDP_BUF_SIZE: usize = 4096;

/// How long a streaming session waits for a quote in one round, in
/// milliseconds; it sets how often PINGs are checked.
pub const STREAM_POLL_MS: u64 = 100;

} // verus!
