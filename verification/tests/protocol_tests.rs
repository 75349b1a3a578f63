use quote_stream::receiver::{is_timeout, ping_step, receiver_step, PingAction, RecvErrorKind, RecvEvent};
use quote_stream::receiver::ReceiverAction::{Abort, Finish, Retry, Show, ShowAndStartPing, Warn};
use quote_stream::receiver::ReceiverPhase::{AwaitingServer, Streaming};
use quote_stream::reply::{bad_command_reply, classify_reply, error_reply, ok_reply, ServerReply};
use quote_stream::session::{is_ping, ping_message, QuoteEvent, SessionAction, StreamSession};

#[test]
fn replies_are_read_as_meant() {
    assert_eq!(ok_reply(), "OK");
    assert_eq!(error_reply("bad format: x"), "ERR bad format: x");
    assert_eq!(classify_reply(&format!("{}\n", ok_reply())), ServerReply::Accepted);
    assert_eq!(
        classify_reply(&format!("{}\n", error_reply("no socket "))),
        ServerReply::Rejected("ERR no socket".to_string())
    );
    assert_eq!(classify_reply(&format!("{}\n", error_reply(""))), ServerReply::Rejected("ERR".to_string()));
}

#[test]
fn other_replies_are_unexpected() {
    assert_eq!(classify_reply("  OK  "), ServerReply::Accepted);
    assert_eq!(classify_reply("OKAY"), ServerReply::Unexpected("OKAY".to_string()));
    assert_eq!(classify_reply("ER"), ServerReply::Unexpected("ER".to_string()));
    assert_eq!(classify_reply(""), ServerReply::Unexpected(String::new()));
    assert_eq!(classify_reply(" ERRATIC\n"), ServerReply::Rejected("ERRATIC".to_string()));
}

#[test]
fn ping_datagrams() {
    assert_eq!(ping_message(), b"PING".to_vec());
    assert!(is_ping(b"PING"));
    assert!(!is_ping(b"PING\n"));
    assert!(!is_ping(b"ping"));
    assert!(!is_ping(b""));
}

#[test]
fn session_times_out_after_five_silent_seconds() {
    let mut s = StreamSession::new("127.0.0.1:1".to_string(), vec!["AAPL".to_string()], 10_000);
    assert!(!s.timed_out(10_000));
    assert!(!s.timed_out(14_999));
    assert_eq!(s.silence_secs(14_999), 4);
    assert!(s.timed_out(15_000));
    s.on_datagram(b"hello", 14_000);
    assert_eq!(s.last_ping_ms, 10_000);
    s.on_datagram(b"PING", 14_000);
    assert_eq!(s.last_ping_ms, 14_000);
    assert!(!s.timed_out(15_000));
    assert!(s.timed_out(19_000));
    assert_eq!(s.client_udp_addr, "127.0.0.1:1");
}

#[test]
fn session_forwards_subscribed_quotes_only() {
    let s = StreamSession::new("a".to_string(), vec!["AAPL".to_string(), "TSLA".to_string()], 0);
    assert_eq!(s.on_quote_event(&QuoteEvent::Quote("TSLA".to_string())), SessionAction::Forward);
    assert_eq!(s.on_quote_event(&QuoteEvent::Quote("MSFT".to_string())), SessionAction::Skip);
    assert_eq!(s.on_quote_event(&QuoteEvent::Quote("tsla".to_string())), SessionAction::Skip);
    assert_eq!(s.on_quote_event(&QuoteEvent::Timeout), SessionAction::Skip);
    assert_eq!(s.on_quote_event(&QuoteEvent::Disconnected), SessionAction::Stop);
    assert!(s.subscribed("AAPL"));
    assert!(!s.subscribed("AAP"));
}

#[test]
fn timeout_kinds() {
    assert!(is_timeout(RecvErrorKind::WouldBlock));
    assert!(is_timeout(RecvErrorKind::TimedOut));
    assert!(!is_timeout(RecvErrorKind::Other));
}

#[test]
fn receiver_phases() {
    assert_eq!(receiver_step(AwaitingServer, RecvEvent::Datagram), (Streaming, ShowAndStartPing));
    assert_eq!(receiver_step(Streaming, RecvEvent::Datagram), (Streaming, Show));
    assert_eq!(
        receiver_step(AwaitingServer, RecvEvent::Failed(RecvErrorKind::TimedOut)),
        (AwaitingServer, Retry)
    );
    assert_eq!(
        receiver_step(AwaitingServer, RecvEvent::Failed(RecvErrorKind::Other)),
        (AwaitingServer, Abort)
    );
    assert_eq!(receiver_step(Streaming, RecvEvent::Failed(RecvErrorKind::Other)), (Streaming, Warn));
    assert_eq!(
        receiver_step(Streaming, RecvEvent::Failed(RecvErrorKind::WouldBlock)),
        (Streaming, Retry)
    );
    assert_eq!(receiver_step(AwaitingServer, RecvEvent::Stopped), (AwaitingServer, Finish));
    assert_eq!(receiver_step(Streaming, RecvEvent::Stopped), (Streaming, Finish));
}

#[test]
fn bad_command_replies() {
    assert_eq!(bad_command_reply("  HELLO world \n"), "ERR неверный формат: HELLO world");
    assert_eq!(bad_command_reply(""), "ERR неверный формат: ");
    assert_eq!(
        classify_reply(&format!("{}\n", bad_command_reply("x"))),
        ServerReply::Rejected("ERR неверный формат: x".to_string())
    );
}

#[test]
fn ping_cadence() {
    assert_eq!(ping_step(true, 0), PingAction::Send);
    for t in 1..20 {
        assert_eq!(ping_step(true, t), PingAction::Sleep);
    }
    assert_eq!(ping_step(true, 20), PingAction::Send);
    assert_eq!(ping_step(true, 41), PingAction::Sleep);
    assert_eq!(ping_step(false, 0), PingAction::Stop);
    assert_eq!(ping_step(false, 7), PingAction::Stop);
}

#[test]
fn session_rounds() {
    let mut s = StreamSession::new("c".to_string(), vec![], 1_000);
    assert!(!s.poll_round(None, 5_999));
    assert!(!s.poll_round(Some(b"PING"), 5_999));
    assert_eq!(s.last_ping_ms, 5_999);
    assert!(!s.poll_round(Some(b"PONG"), 10_998));
    assert_eq!(s.last_ping_ms, 5_999);
    assert!(s.poll_round(None, 10_999));
    assert!(!s.poll_round(Some(b"PING"), 10_999));
}
