use p2p_failover::flags::{debug_enabled, switch_on_lowered, switch_value_on, verbose_enabled};
use p2p_failover::wire::{choose_stream, StreamChoice};
use p2p_failover::text::trim_text;
use p2p_failover::wire::{
    classify_command, decode_config_reply, escape_newlines, is_pong, ping_verdict, reply_to,
    stream_usable, unescape_newlines, LineCommand, ProbeVerdict, ReadOutcome, WriteCheck,
};

#[test]
fn escape_turns_line_feeds_into_pairs() {
    assert_eq!(escape_newlines("a\nb\n"), "a\\nb\\n");
    assert_eq!(escape_newlines(""), "");
    assert_eq!(escape_newlines("plain"), "plain");
}

#[test]
fn unescape_turns_pairs_into_line_feeds() {
    assert_eq!(unescape_newlines("a\\nb\\n"), "a\nb\n");
    assert_eq!(unescape_newlines("\\\\n"), "\\\n");
    assert_eq!(unescape_newlines("\\x"), "\\x");
    assert_eq!(unescape_newlines("end\\"), "end\\");
}

#[test]
fn escape_then_unescape_gives_the_text_back() {
    let t = "nodes:\n- name: A\n  port: 9001\nconfig_metadata:\n  name: A\n";
    assert_eq!(unescape_newlines(&escape_newlines(t)), t);
}

#[test]
fn get_config_reply_escapes_three_line_feeds() {
    let text = "a: 1\nb: 2\nc: 3\n";
    let reply = reply_to("GET CONFIG", text).unwrap();
    let body = &reply[..reply.len() - 1];
    assert!(reply.ends_with('\n'));
    assert_eq!(body.matches('\n').count(), 0);
    assert_eq!(body.matches("\\n").count(), 3);
    assert_eq!(decode_config_reply(&reply).unwrap(), text);
}

#[test]
fn ping_is_answered_with_pong() {
    assert_eq!(reply_to("PING", "x: 1\n").unwrap(), "PONG\n");
}

#[test]
fn commands_are_recognised() {
    assert_eq!(classify_command("PING"), LineCommand::Ping);
    assert_eq!(classify_command("PING "), LineCommand::Unknown);
    assert_eq!(classify_command("PIN"), LineCommand::Unknown);
    assert_eq!(classify_command("GET CONFIG"), LineCommand::GetConfig);
    assert_eq!(classify_command("GET CONFIG please"), LineCommand::GetConfig);
    assert_eq!(classify_command("GET CONFI"), LineCommand::Unknown);
    assert_eq!(classify_command("HELLO"), LineCommand::Unknown);
    assert!(reply_to("HELLO", "x").is_none());
}

#[test]
fn pong_is_read_after_trimming() {
    assert!(is_pong("PONG\n"));
    assert!(is_pong("  PONG\r\n"));
    assert!(!is_pong("PONGS\n"));
    assert!(!is_pong(""));
}

#[test]
fn empty_config_reply_is_refused() {
    assert!(decode_config_reply("").is_none());
    assert!(decode_config_reply("  \n").is_none());
    assert_eq!(decode_config_reply("a: 1\\nb: 2\\n\n").unwrap(), "a: 1\nb: 2\n");
}

#[test]
fn probe_verdicts() {
    assert_eq!(ping_verdict(&ReadOutcome::Line("PONG\n".to_string())), ProbeVerdict::Alive);
    assert_eq!(ping_verdict(&ReadOutcome::Line(String::new())), ProbeVerdict::Dead);
    assert_eq!(ping_verdict(&ReadOutcome::TimedOut), ProbeVerdict::Dead);
    assert_eq!(ping_verdict(&ReadOutcome::Failed), ProbeVerdict::DeadEvict);
}

#[test]
fn zero_write_checks() {
    assert!(stream_usable(WriteCheck::Written));
    assert!(stream_usable(WriteCheck::WouldBlock));
    assert!(!stream_usable(WriteCheck::BrokenPipe));
    assert!(!stream_usable(WriteCheck::Failed));
}

#[test]
fn trim_removes_white_space_at_both_ends() {
    assert_eq!(trim_text("  a b \t\n"), "a b");
    assert_eq!(trim_text("\u{3000}x\u{a0}"), "x");
    assert_eq!(trim_text("   "), "");
    assert_eq!(trim_text(""), "");
}

#[test]
fn request_lines() {
    assert_eq!(p2p_failover::wire::ping_request(), "PING\n");
    assert_eq!(p2p_failover::wire::config_request(), "GET CONFIG\n");
}

#[test]
fn stream_choice_follows_the_zero_write() {
    assert_eq!(choose_stream(None), StreamChoice::Open);
    assert_eq!(choose_stream(Some(WriteCheck::Written)), StreamChoice::Reuse);
    assert_eq!(choose_stream(Some(WriteCheck::WouldBlock)), StreamChoice::Reuse);
    assert_eq!(choose_stream(Some(WriteCheck::BrokenPipe)), StreamChoice::EvictAndOpen);
    assert_eq!(choose_stream(Some(WriteCheck::Failed)), StreamChoice::EvictAndOpen);
}

#[test]
fn switches_read_one_or_true() {
    assert!(switch_value_on("1"));
    assert!(switch_value_on("TRUE"));
    assert!(switch_value_on("True"));
    assert!(!switch_value_on("yes"));
    assert!(!switch_value_on("0"));
    assert!(switch_on_lowered("TRUE", "true"));
    assert!(!switch_on_lowered("TRUE", "TRUE"));
    assert!(!debug_enabled(None));
    assert!(debug_enabled(Some("1")));
    assert!(verbose_enabled(None, Some("true")));
    assert!(!verbose_enabled(Some("0"), Some("1")));
    assert!(verbose_enabled(Some("1"), None));
    assert!(!verbose_enabled(None, None));
}
