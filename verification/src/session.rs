use vstd::prelude::*;

use crate::text;
use crate::PING_TIMEOUT_SECS;

verus! {

/// The bytes of the keep-alive datagram a client sends: `PING`.
pub open spec fn ping_bytes() -> Seq<u8> {
    seq![80u8, 73u8, 78u8, 71u8]
}

/// The keep-alive datagram.
pub fn ping_message() -> (r: Vec<u8>)
    ensures
        r@ == ping_bytes(),
{
    let r: Vec<u8> = vec![80u8, 73u8, 78u8, 71u8];
    assert(r@ =~= ping_bytes());
    r
}

/// Whether a datagram is the keep-alive datagram.
pub fn is_ping(datagram: &[u8]) -> (r: bool)
    ensures
        r == (datagram@ == ping_bytes()),
{
    if datagram.len() != 4 {
        return false;
    }
    let r = datagram[0] == 80u8 && datagram[1] == 73u8 && datagram[2] == 78u8 && datagram[3] == 71u8;
    if r {
        assert(datagram@ =~= ping_bytes());
    }
    r
}

/// Whether a client that last sent a PING at `last_ping_ms` has been silent
/// for the whole timeout when the clock reads `now_ms`: the silence counts in
/// whole seconds.
pub open spec fn ping_expired(last_ping_ms: u64, now_ms: u64) -> bool {
    (now_ms - last_ping_ms) / 1000 >= PING_TIMEOUT_SECS
}

/// When the client last sent a PING after a datagram `datagram` came at
/// `now_ms`, where before it was at `last_ping_ms`.
pub open spec fn after_datagram(last_ping_ms: u64, datagram: Seq<u8>, now_ms: u64) -> u64 {
    if datagram == ping_bytes() {
        now_ms
    } else {
        last_ping_ms
    }
}

/// When the client last sent a PING after a round's read of its socket at
/// `now_ms` gave `datagram` (or nothing).
pub open spec fn after_read(last_ping_ms: u64, datagram: Option<Seq<u8>>, now_ms: u64) -> u64 {
    match datagram {
        Some(d) => after_datagram(last_ping_ms, d, now_ms),
        None => last_ping_ms,
    }
}

/// What the quote channel gave the session in one round.
#[derive(Debug)]
pub enum QuoteEvent {
    /// A quote for this ticker.
    Quote(String),
    /// No quote came within the poll time.
    Timeout,
    /// The channel was closed: the server is shutting down.
    Disconnected,
}

/// What the session does with what the channel gave.
#[derive(Debug, PartialEq, Eq)]
pub enum SessionAction {
    /// Send the quote to the client.
    Forward,
    /// Go on with the next round.
    Skip,
    /// End the session.
    Stop,
}

/// The state of the session that streams quotes to one client.
#[derive(Debug)]
pub struct StreamSession {
    /// The client's UDP address.
    pub client_udp_addr: String,
    /// The tickers the client subscribed to.
    pub tickers: Vec<String>,
    /// When the client last sent a PING (ms since the Unix epoch); the start
    /// of the session counts as one.
    pub last_ping_ms: u64,
}

impl StreamSession {
    /// A session that starts at `now_ms`.
    pub fn new(client_udp_addr: String, tickers: Vec<String>, now_ms: u64) -> (s: Self)
        ensures
            s.client_udp_addr == client_udp_addr,
            s.tickers == tickers,
            s.last_ping_ms == now_ms,
    {
        StreamSession { client_udp_addr, tickers, last_ping_ms: now_ms }
    }

    /// Takes in a datagram that came from the client at `now_ms`: a PING
    /// renews the session, anything else is ignored.
    pub fn on_datagram(&mut self, datagram: &[u8], now_ms: u64)
        ensures
            final(self).client_udp_addr == old(self).client_udp_addr,
            final(self).tickers == old(self).tickers,
            final(self).last_ping_ms == after_datagram(old(self).last_ping_ms, datagram@, now_ms),
    {
        if is_ping(datagram) {
            self.last_ping_ms = now_ms;
        }
    }

    /// The first half of a round, taken at `now_ms`: take in what the read of
    /// the client's socket gave (a datagram or nothing), then tell whether the
    /// client has been silent too long, so that the session ends.
    pub fn poll_round(&mut self, datagram: Option<&[u8]>, now_ms: u64) -> (stop: bool)
        requires
            old(self).last_ping_ms <= now_ms,
        ensures
            final(self).client_udp_addr == old(self).client_udp_addr,
            final(self).tickers == old(self).tickers,
            final(self).last_ping_ms == after_read(
                old(self).last_ping_ms,
                match datagram {
                    Some(d) => Some(d@),
                    None => None,
                },
                now_ms,
            ),
            stop == ping_expired(final(self).last_ping_ms, now_ms),
    {
        match datagram {
            Some(d) => self.on_datagram(d, now_ms),
            None => {},
        }
        self.timed_out(now_ms)
    }

    /// Whole seconds since the last PING.
    pub fn silence_secs(&self, now_ms: u64) -> (r: u64)
        requires
            self.last_ping_ms <= now_ms,
        ensures
            r == (now_ms - self.last_ping_ms) / 1000,
    {
        (now_ms - self.last_ping_ms) / 1000
    }

    /// Whether the client has been silent too long at `now_ms`.
    pub fn timed_out(&self, now_ms: u64) -> (r: bool)
        requires
            self.last_ping_ms <= now_ms,
        ensures
            r == ping_expired(self.last_ping_ms, now_ms),
    {
        self.silence_secs(now_ms) >= PING_TIMEOUT_SECS
    }

    /// Whether the client subscribed to `ticker`.
    pub fn subscribed(&self, ticker: &str) -> (r: bool)
        ensures
            r == text::string_views(self.tickers@).contains(ticker@),
    {
        let t = String::from_str(ticker);
        let ghost views = text::string_views(self.tickers@);
        let mut k: usize = 0;
        while k < self.tickers.len()
            invariant
                k <= self.tickers@.len(),
                views == text::string_views(self.tickers@),
                t@ == ticker@,
                forall|j: int| 0 <= j < k ==> views[j] != ticker@,
            decreases self.tickers@.len() - k,
        {
            if self.tickers[k] == t {
                assert(views[k as int] == ticker@);
                return true;
            }
            k = k + 1;
        }
        proof {
            if views.contains(ticker@) {
                let j = choose|j: int| 0 <= j < views.len() && views[j] == ticker@;
                assert(views[j] != ticker@);
            }
        }
        false
    }

    /// What to do with what the quote channel gave: forward a quote for a
    /// subscribed ticker, skip other quotes and empty polls, stop when the
    /// channel is closed.
    pub fn on_quote_event(&self, event: &QuoteEvent) -> (r: SessionAction)
        ensures
            r == match event {
                QuoteEvent::Quote(t) => if text::string_views(self.tickers@).contains(t@) {
                    SessionAction::Forward
                } else {
                    SessionAction::Skip
                },
                QuoteEvent::Timeout => SessionAction::Skip,
                QuoteEvent::Disconnected => SessionAction::Stop,
            },
    {
        match event {
            QuoteEvent::Quote(t) => {
                if self.subscribed(t.as_str()) {
                    SessionAction::Forward
                } else {
                    SessionAction::Skip
                }
            },
            QuoteEvent::Timeout => SessionAction::Skip,
            QuoteEvent::Disconnected => SessionAction::Stop,
        }
    }
}

/// A session ends exactly when a full timeout (five seconds) has passed
/// since the client's last PING.
pub proof fn lemma_expiry_after_timeout(last_ping_ms: u64, now_ms: u64)
    requires
        last_ping_ms <= now_ms,
    ensures
        ping_expired(last_ping_ms, now_ms) <==> now_ms - last_ping_ms >= PING_TIMEOUT_SECS * 1000,
{
}

/// Once a client has been silent too long it stays so as the clock goes on,
/// until it sends a PING.
pub proof fn lemma_expiry_lasts(last_ping_ms: u64, now_ms: u64, later_ms: u64)
    requires
        last_ping_ms <= now_ms <= later_ms,
        ping_expired(last_ping_ms, now_ms),
    ensures
        ping_expired(last_ping_ms, later_ms),
{
}


/// Under a clock that never steps back, every round can be run: a session
/// starts with its last PING at a clock reading, and after a round at
/// `now_ms` its last PING is still no later than `now_ms`, hence no later
/// than any later reading, so the silence never counts below zero.
pub proof fn lemma_rounds_keep_clock_order(
    last_ping_ms: u64,
    datagram: Option<Seq<u8>>,
    now_ms: u64,
    later_ms: u64,
)
    requires
        last_ping_ms <= now_ms <= later_ms,
    ensures
        after_read(last_ping_ms, datagram, now_ms) <= now_ms,
        after_read(last_ping_ms, datagram, now_ms) <= later_ms,
{
}

/// A PING in a round keeps the session going in that round.
pub proof fn lemma_ping_round_continues(last_ping_ms: u64, now_ms: u64)
    requires
        last_ping_ms <= now_ms,
    ensures
        !ping_expired(after_read(last_ping_ms, Some(ping_bytes()), now_ms), now_ms),
{
}

} // verus!
