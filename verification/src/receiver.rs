use vstd::prelude::*;

use crate::{PING_INTERVAL_SECS, PING_TICK_MS};

verus! {

/// The kinds of failed UDP reads that the receive loop tells apart.
#[derive(Debug, Clone, Copy, PartialEq, Eq)]
pub enum RecvErrorKind {
    /// The read would have blocked: nothing came.
    WouldBlock,
    /// The read timed out: nothing came.
    TimedOut,
    /// Any other failure.
    Other,
}

/// Whether a failed read only means that nothing came in time.
pub fn is_timeout(kind: RecvErrorKind) -> (r: bool)
    ensures
        r == (kind == RecvErrorKind::WouldBlock || kind == RecvErrorKind::TimedOut),
{
    match kind {
        RecvErrorKind::WouldBlock => true,
        RecvErrorKind::TimedOut => true,
        RecvErrorKind::Other => false,
    }
}

/// Where the client's receive loop stands.
#[derive(Debug, Clone, Copy, PartialEq, Eq)]
pub enum ReceiverPhase {
    /// No datagram has come yet, so the server's UDP address is not known.
    AwaitingServer,
    /// The server is known and the PING loop runs.
    Streaming,
}

/// What one round of the receive loop saw.
#[derive(Debug, Clone, Copy, PartialEq, Eq)]
pub enum RecvEvent {
    /// The user asked the client to stop.
    Stopped,
    /// A datagram came.
    Datagram,
    /// The read failed.
    Failed(RecvErrorKind),
}

/// What the receive loop does next.
#[derive(Debug, Clone, Copy, PartialEq, Eq)]
pub enum ReceiverAction {
    /// Leave the loop; all went well.
    Finish,
    /// Show the quote in the datagram, take its sender as the server and
    /// start sending PINGs to it.
    ShowAndStartPing,
    /// Show the quote in the datagram.
    Show,
    /// Read again.
    Retry,
    /// Leave the loop with an error: the first read failed.
    Abort,
    /// Report the failed read and read again.
    Warn,
}

/// The next phase and action of the receive loop, as a transition table.
pub open spec fn receiver_next(phase: ReceiverPhase, event: RecvEvent) -> (ReceiverPhase, ReceiverAction) {
    match (phase, event) {
        (_, RecvEvent::Stopped) => (phase, ReceiverAction::Finish),
        (ReceiverPhase::AwaitingServer, RecvEvent::Datagram) => (
            ReceiverPhase::Streaming,
            ReceiverAction::ShowAndStartPing,
        ),
        (ReceiverPhase::Streaming, RecvEvent::Datagram) => (
            ReceiverPhase::Streaming,
            ReceiverAction::Show,
        ),
        (_, RecvEvent::Failed(RecvErrorKind::WouldBlock)) => (phase, ReceiverAction::Retry),
        (_, RecvEvent::Failed(RecvErrorKind::TimedOut)) => (phase, ReceiverAction::Retry),
        (ReceiverPhase::AwaitingServer, RecvEvent::Failed(RecvErrorKind::Other)) => (
            phase,
            ReceiverAction::Abort,
        ),
        (ReceiverPhase::Streaming, RecvEvent::Failed(RecvErrorKind::Other)) => (
            phase,
            ReceiverAction::Warn,
        ),
    }
}

/// One round of the client's receive loop.
pub fn receiver_step(phase: ReceiverPhase, event: RecvEvent) -> (r: (ReceiverPhase, ReceiverAction))
    ensures
        r == receiver_next(phase, event),
        event == RecvEvent::Failed(RecvErrorKind::WouldBlock) ==> r == (phase, ReceiverAction::Retry),
        event == RecvEvent::Failed(RecvErrorKind::TimedOut) ==> r == (phase, ReceiverAction::Retry),
        event == RecvEvent::Failed(RecvErrorKind::Other) && phase == ReceiverPhase::AwaitingServer
            ==> r == (phase, ReceiverAction::Abort),
        event == RecvEvent::Failed(RecvErrorKind::Other) && phase == ReceiverPhase::Streaming ==> r
            == (phase, ReceiverAction::Warn),
{
    match event {
        RecvEvent::Stopped => (phase, ReceiverAction::Finish),
        RecvEvent::Datagram => match phase {
            ReceiverPhase::AwaitingServer => (ReceiverPhase::Streaming, ReceiverAction::ShowAndStartPing),
            ReceiverPhase::Streaming => (ReceiverPhase::Streaming, ReceiverAction::Show),
        },
        RecvEvent::Failed(kind) => {
            if is_timeout(kind) {
                (phase, ReceiverAction::Retry)
            } else {
                match phase {
                    ReceiverPhase::AwaitingServer => (phase, ReceiverAction::Abort),
                    ReceiverPhase::Streaming => (phase, ReceiverAction::Warn),
                }
            }
        },
    }
}

/// A read that only timed out (would block, or timed out) is retried in
/// every phase and changes nothing: the client keeps waiting for its first
/// quote, or keeps streaming.
pub proof fn lemma_timeouts_retry(phase: ReceiverPhase, kind: RecvErrorKind)
    ensures
        (kind == RecvErrorKind::WouldBlock || kind == RecvErrorKind::TimedOut) ==> receiver_next(
            phase,
            RecvEvent::Failed(kind),
        ) == (phase, ReceiverAction::Retry),
        kind == RecvErrorKind::Other ==> receiver_next(phase, RecvEvent::Failed(kind)).1
            != ReceiverAction::Retry,
{
}

/// Once streaming, the loop stays streaming; the PING loop is started only on
/// the first datagram; only a failed first read ends the loop with an error.
pub proof fn lemma_receiver_phases(phase: ReceiverPhase, event: RecvEvent)
    ensures
        phase == ReceiverPhase::Streaming ==> receiver_next(phase, event).0 == ReceiverPhase::Streaming,
        receiver_next(phase, event).1 == ReceiverAction::ShowAndStartPing <==> (phase
            == ReceiverPhase::AwaitingServer && event == RecvEvent::Datagram),
        receiver_next(phase, event).1 == ReceiverAction::Abort ==> phase
            == ReceiverPhase::AwaitingServer,
        (receiver_next(phase, event).0 == ReceiverPhase::Streaming) <==> (phase
            == ReceiverPhase::Streaming || event == RecvEvent::Datagram),
{
}


/// How many ticks of `PING_TICK_MS` make one PING interval.
pub open spec fn ticks_per_ping() -> u64 {
    ((PING_INTERVAL_SECS as int) * 1000 / (PING_TICK_MS as int)) as u64
}

/// What the client's PING loop does in one tick.
#[derive(Debug, Clone, Copy, PartialEq, Eq)]
pub enum PingAction {
    /// Send a PING to the server, then sleep one tick.
    Send,
    /// Sleep one tick.
    Sleep,
    /// Leave the loop: the client is stopping.
    Stop,
}

/// The PING loop's action in tick number `ticks`: stop once the client
/// stops, otherwise send at the start of every PING interval and sleep in
/// between.
pub open spec fn ping_next(running: bool, ticks: u64) -> PingAction {
    if !running {
        PingAction::Stop
    } else if ticks % ticks_per_ping() == 0 {
        PingAction::Send
    } else {
        PingAction::Sleep
    }
}

/// One tick of the client's PING loop.
pub fn ping_step(running: bool, ticks: u64) -> (r: PingAction)
    ensures
        r == ping_next(running, ticks),
{
    let per_ping: u64 = PING_INTERVAL_SECS * 1000 / PING_TICK_MS;
    if !running {
        PingAction::Stop
    } else if ticks % per_ping == 0 {
        PingAction::Send
    } else {
        PingAction::Sleep
    }
}

/// While the client runs, it sends one PING every `PING_INTERVAL_SECS`: the
/// interval is a whole number of ticks, a PING goes out in the first tick of
/// each interval and none in the other ticks of it.
pub proof fn lemma_ping_cadence(interval: u64, offset: u64)
    requires
        offset < ticks_per_ping(),
        interval * ticks_per_ping() + offset <= u64::MAX,
    ensures
        ticks_per_ping() * PING_TICK_MS == PING_INTERVAL_SECS * 1000,
        ping_next(true, (interval * ticks_per_ping() + offset) as u64) == if offset == 0 {
            PingAction::Send
        } else {
            PingAction::Sleep
        },
        ping_next(false, (interval * ticks_per_ping() + offset) as u64) == PingAction::Stop,
{
    let t = interval * ticks_per_ping() + offset;
    assert(ticks_per_ping() == 20);
    assert(t % 20 == offset) by (nonlinear_arith)
        requires
            t == interval * 20 + offset,
            offset < 20,
    ;
}

} // verus!
