use quote_stream::command::{stream_command_line, StreamCommand};
use quote_stream::text::tickers_from_text;

#[test]
fn test_stream_command_parse_valid() {
    let cmd = StreamCommand::parse("STREAM udp://127.0.0.1:34254 AAPL,GOOGL,TSLA")
        .expect("the command is valid");

    assert_eq!(cmd.udp_addr, "127.0.0.1:34254");
    assert_eq!(cmd.tickers, vec!["AAPL", "GOOGL", "TSLA"]);
}

#[test]
fn test_stream_command_parse_normalizes_case() {
    let cmd = StreamCommand::parse("STREAM udp://127.0.0.1:34254 aapl,tsla").unwrap();
    assert_eq!(cmd.tickers, vec!["AAPL", "TSLA"]);
}

#[test]
fn test_stream_command_parse_trims_whitespace() {
    let cmd = StreamCommand::parse("STREAM udp://127.0.0.1:34254  AAPL , TSLA ").unwrap();
    assert_eq!(cmd.tickers, vec!["AAPL", "TSLA"]);
}

#[test]
fn test_stream_command_parse_with_newline() {
    let cmd = StreamCommand::parse("STREAM udp://127.0.0.1:34254 AAPL\n").unwrap();
    assert_eq!(cmd.udp_addr, "127.0.0.1:34254");
    assert_eq!(cmd.tickers, vec!["AAPL"]);
}

#[test]
fn test_stream_command_parse_invalid() {
    assert!(StreamCommand::parse("").is_none());
    assert!(StreamCommand::parse("STREAM").is_none());
    assert!(StreamCommand::parse("CONNECT udp://127.0.0.1:34254 AAPL").is_none());
    assert!(StreamCommand::parse("STREAM 127.0.0.1:34254 AAPL").is_none());
}

#[test]
fn parse_drops_empty_tickers() {
    let cmd = StreamCommand::parse("STREAM udp://10.0.0.2:9 a, ,,b c ,").unwrap();
    assert_eq!(cmd.udp_addr, "10.0.0.2:9");
    assert_eq!(cmd.tickers, vec!["A", "B C"]);
    let cmd = StreamCommand::parse("STREAM udp://h:1 ,,,").unwrap();
    assert!(cmd.tickers.is_empty());
}

#[test]
fn parse_needs_two_spaces_after_trimming() {
    assert!(StreamCommand::parse("STREAM udp://127.0.0.1:1   ").is_none());
    assert!(StreamCommand::parse("STREAM udp://127.0.0.1:1").is_none());
    let cmd = StreamCommand::parse("STREAM udp://h:1  x").unwrap();
    assert_eq!(cmd.tickers, vec!["X"]);
}

#[test]
fn parse_keyword_and_scheme_are_exact() {
    assert!(StreamCommand::parse("stream udp://h:1 A").is_none());
    assert!(StreamCommand::parse("STREAMS udp://h:1 A").is_none());
    assert!(StreamCommand::parse("STREAM UDP://h:1 A").is_none());
    assert!(StreamCommand::parse("STREAM udp:/h:1 A").is_none());
    let cmd = StreamCommand::parse("STREAM udp:// A").unwrap();
    assert_eq!(cmd.udp_addr, "");
}

#[test]
fn parse_trims_unicode_white_space() {
    let cmd = StreamCommand::parse("\u{3000}\tSTREAM udp://h:1 \u{a0}msft\u{2003}\u{85}").unwrap();
    assert_eq!(cmd.udp_addr, "h:1");
    assert_eq!(cmd.tickers, vec!["MSFT"]);
}

#[test]
fn parse_upper_cases_beyond_ascii() {
    let cmd = StreamCommand::parse("STREAM udp://h:1 straße,émé").unwrap();
    assert_eq!(cmd.tickers, vec!["STRASSE", "ÉMÉ"]);
}

#[test]
fn command_line_format() {
    let tickers = vec!["AAPL".to_string(), "TSLA".to_string()];
    assert_eq!(
        stream_command_line(34254, &tickers),
        "STREAM udp://127.0.0.1:34254 AAPL,TSLA\n"
    );
    assert_eq!(stream_command_line(0, &vec!["X".to_string()]), "STREAM udp://127.0.0.1:0 X\n");
    assert_eq!(stream_command_line(65535, &vec![]), "STREAM udp://127.0.0.1:65535 \n");
}

#[test]
fn command_line_round_trip() {
    let tickers = vec!["aapl".to_string(), "Msft".to_string(), "NVDA".to_string()];
    let line = stream_command_line(7, &tickers);
    let cmd = StreamCommand::parse(&line).unwrap();
    assert_eq!(cmd.udp_addr, "127.0.0.1:7");
    assert_eq!(cmd.tickers, vec!["AAPL", "MSFT", "NVDA"]);
}

#[test]
fn ticker_file_lines() {
    let tickers = tickers_from_text("aapl\r\n  msft \n\n\t\nGoogl");
    assert_eq!(tickers, vec!["AAPL", "MSFT", "GOOGL"]);
    assert!(tickers_from_text("").is_empty());
    assert!(tickers_from_text("\n \n").is_empty());
    assert_eq!(tickers_from_text("a,b\n"), vec!["A,B"]);
}
