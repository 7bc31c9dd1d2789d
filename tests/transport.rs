use r2pipe::document::{document_text, parse_document};
use r2pipe::error::R2PipeError;
use r2pipe::frame::{decode_payload, decode_response, encode_request, find_terminator, slice_prefix, slice_suffix};
use r2pipe::r2::{Step, R2};
use r2pipe::select::{inherited_session, is_pipe_path_text, lookup_value, parse_descriptor, select, ChannelSpec};
use r2pipe::session::{CloseAction, R2Pipe};

fn cfg(entries: &[(&str, &str)]) -> Vec<(String, String)> {
    entries.iter().map(|(k, v)| (k.to_string(), v.to_string())).collect()
}

fn spawned() -> R2Pipe {
    R2Pipe::attach(ChannelSpec::Spawned { target: "/bin/ls".to_string() })
}

fn inherited() -> R2Pipe {
    R2Pipe::attach(ChannelSpec::Inherited { input: 3, output: 4 })
}

/// An `R2` over a spawned engine whose greeting has been taken in.
fn ready() -> R2 {
    let mut r = R2::from(spawned());
    assert_eq!(r.next_step(), Step::Read);
    assert_eq!(r.deliver(b"\0"), Some(Ok(())));
    assert_eq!(r.recv(), "");
    r
}

#[test]
fn request_is_command_and_newline() {
    assert_eq!(encode_request("ij"), b"ij\n".to_vec());
    assert_eq!(encode_request(""), b"\n".to_vec());
    assert_eq!(encode_request("é"), vec![0xc3, 0xa9, 10]);
}

#[test]
fn terminator_search() {
    assert_eq!(find_terminator(b"ab\0c\0"), Some(2));
    assert_eq!(find_terminator(b"\0"), Some(0));
    assert_eq!(find_terminator(b"abc"), None);
    assert_eq!(find_terminator(b""), None);
}

#[test]
fn byte_copies() {
    assert_eq!(slice_prefix(b"abcd", 2), b"ab".to_vec());
    assert_eq!(slice_suffix(b"abcd", 2), b"cd".to_vec());
    assert_eq!(slice_suffix(b"abcd", 4), Vec::<u8>::new());
}

#[test]
fn response_payload_without_terminator() {
    assert_eq!(decode_response(b"hello\0"), Ok(("hello".to_string(), 6)));
    assert_eq!(decode_response(b"line\n\0"), Ok(("line\n".to_string(), 6)));
    assert_eq!(decode_response(b"\0"), Ok((String::new(), 1)));
}

#[test]
fn unterminated_stream_is_transport_error() {
    assert_eq!(decode_response(b"partial"), Err(R2PipeError::Transport));
    assert_eq!(decode_response(b""), Err(R2PipeError::Transport));
}

#[test]
fn embedded_nul_truncates() {
    assert_eq!(decode_response(b"ab\0cd\0"), Ok(("ab".to_string(), 3)));
}

#[test]
fn invalid_utf8_is_decode_error() {
    assert_eq!(decode_response(b"\xff\xfe\0"), Err(R2PipeError::Decode));
    assert_eq!(decode_payload(b"\xc3"), Err(R2PipeError::Decode));
    assert_eq!(decode_payload("h\u{e9}llo".as_bytes()), Ok("h\u{e9}llo".to_string()));
}

#[test]
fn descriptors_parse() {
    assert_eq!(parse_descriptor("3"), Some(3));
    assert_eq!(parse_descriptor("0042"), Some(42));
    assert_eq!(parse_descriptor("2147483647"), Some(2147483647));
    assert_eq!(parse_descriptor("2147483648"), None);
    assert_eq!(parse_descriptor("99999999999999999999"), None);
    assert_eq!(parse_descriptor(""), None);
    assert_eq!(parse_descriptor("-1"), None);
    assert_eq!(parse_descriptor("1a"), None);
}

#[test]
fn lookup_takes_first_entry() {
    let c = cfg(&[("A", "1"), ("B", "2"), ("A", "3")]);
    assert_eq!(lookup_value(&c, &"A".to_string()), Some(&"1".to_string()));
    assert_eq!(lookup_value(&c, &"C".to_string()), None);
}

#[test]
fn selector_prefers_inherited_session() {
    let c = cfg(&[("R2PIPE_IN", "5"), ("R2PIPE_OUT", "6")]);
    assert_eq!(inherited_session(&c), Some(ChannelSpec::Inherited { input: 5, output: 6 }));
    assert_eq!(select(None, &c), Ok(ChannelSpec::Inherited { input: 5, output: 6 }));
    assert_eq!(
        select(Some("/bin/ls".to_string()), &c),
        Ok(ChannelSpec::Inherited { input: 5, output: 6 })
    );
}

#[test]
fn selector_spawns_for_path() {
    let c = cfg(&[("R2PIPE_IN", "x"), ("R2PIPE_OUT", "6"), ("HOME", "/root")]);
    assert_eq!(inherited_session(&c), None);
    assert_eq!(
        select(Some("/bin/ls".to_string()), &c),
        Ok(ChannelSpec::Spawned { target: "/bin/ls".to_string() })
    );
    assert_eq!(
        select(Some("/bin/ls".to_string()), &Vec::new()),
        Ok(ChannelSpec::Spawned { target: "/bin/ls".to_string() })
    );
}

#[test]
fn selector_without_session_or_path_fails() {
    assert_eq!(select(None, &Vec::new()), Err(R2PipeError::Configuration));
    let c = cfg(&[("R2PIPE_IN", "5")]);
    assert_eq!(select(None, &c), Err(R2PipeError::Configuration));
    assert!(R2Pipe::open(None, &c).is_err());
}

#[test]
fn command_returns_payload_exactly() {
    let mut p = inherited();
    assert_eq!(p.cmd("?e hi"), Ok(b"?e hi\n".to_vec()));
    assert!(p.waiting);
    assert_eq!(p.receive(b"hi\n"), None);
    assert!(p.waiting);
    assert_eq!(p.receive(b"\0"), Some(Ok("hi\n".to_string())));
    assert!(!p.waiting);
    assert!(p.pending.is_empty());
}

#[test]
fn responses_come_in_issue_order() {
    let mut p = inherited();
    p.cmd("a").unwrap();
    assert_eq!(p.receive(b"first\0sec"), Some(Ok("first".to_string())));
    p.cmd("b").unwrap();
    assert_eq!(p.receive(b"ond\0"), Some(Ok("second".to_string())));
    assert!(p.pending.is_empty());
}

#[test]
fn silent_peer_fails_with_transport_error() {
    let mut p = inherited();
    p.cmd("x").unwrap();
    assert_eq!(p.receive(b"no end"), None);
    assert_eq!(p.end_of_stream(), R2PipeError::Transport);
    assert!(!p.waiting);
    assert!(p.pending.is_empty());
}

#[test]
fn embedded_nul_in_session_truncates() {
    let mut p = inherited();
    p.cmd("x").unwrap();
    assert_eq!(p.receive(b"ab\0cd\0"), Some(Ok("ab".to_string())));
    assert_eq!(p.pending, b"cd\0".to_vec());
}

#[test]
fn close_twice_spawned() {
    let mut p = spawned();
    assert_eq!(p.close(), CloseAction::QuitAndWait { request: b"q!\n".to_vec() });
    assert!(p.closed);
    assert_eq!(p.close(), CloseAction::AlreadyClosed);
    assert_eq!(p.cmd("i"), Err(R2PipeError::Closed));
}

#[test]
fn close_twice_inherited() {
    let mut p = R2Pipe::attach(ChannelSpec::Inherited { input: 3, output: 4 });
    assert_eq!(p.close(), CloseAction::Release);
    assert_eq!(p.close(), CloseAction::AlreadyClosed);
}

#[test]
fn blank_response_is_empty_object() {
    assert_eq!(document_text(""), "{}");
    assert_eq!(document_text(" \n\t\r"), "{}");
    assert_eq!(document_text("{}"), "{}");
    assert_eq!(document_text("[1]"), "[1]");
    let empty = parse_document("").unwrap();
    let braces = parse_document("{}").unwrap();
    assert_eq!(empty, braces);
    assert_eq!(empty, serde_json::Value::Object(serde_json::Map::new()));
}

#[test]
fn malformed_document_is_structured_error() {
    assert_eq!(parse_document("{nope").unwrap_err(), R2PipeError::Structured);
    let v = parse_document("{\"a\": 1}").unwrap();
    assert_eq!(v["a"], serde_json::Value::from(1));
}

#[test]
fn r2_new_needs_session_or_path() {
    let e = R2::new(None, &Vec::new()).err().unwrap();
    assert_eq!(e, "No r2 session open. Please specify path!");
    let r = R2::new(Some("/bin/ls".to_string()), &Vec::new()).ok().unwrap();
    assert_eq!(r.pipe.channel, ChannelSpec::Spawned { target: "/bin/ls".to_string() });
    assert!(R2::in_session(&cfg(&[("R2PIPE_IN", "3"), ("R2PIPE_OUT", "4")])));
    assert!(!R2::in_session(&cfg(&[("R2PIPE_IN", "3")])));
}

#[test]
fn r2_send_and_recv() {
    let mut r = ready();
    r.send("?e hello");
    assert_eq!(r.next_step(), Step::Write(b"?e hello\n".to_vec()));
    assert_eq!(r.next_step(), Step::Read);
    assert_eq!(r.deliver(b"hello\n"), None);
    assert_eq!(r.deliver(b"\0"), Some(Ok(())));
    assert_eq!(r.next_step(), Step::Idle);
    assert_eq!(r.recv(), "hello\n");
    assert_eq!(r.recv(), "");
}

#[test]
fn r2_init_queues_settings_then_analysis() {
    let mut r = ready();
    r.init();
    assert_eq!(r.next_step(), Step::Write(b"e asm.esil = true\n".to_vec()));
    r.deliver(b"\0");
    assert_eq!(r.next_step(), Step::Write(b"e scr.color = false\n".to_vec()));
    r.deliver(b"ok\0");
    assert_eq!(r.readin, "ok");
    assert_eq!(r.next_step(), Step::Write(b"aa\n".to_vec()));
    r.deliver(b"analysis output\0");
    assert_eq!(r.readin, "");
    assert_eq!(r.next_step(), Step::Idle);
}

#[test]
fn r2_recv_json_and_flush() {
    let mut r = ready();
    r.send("ij");
    r.next_step();
    r.deliver(b"{\"bin\": {\"arch\": \"x86\"}}\0");
    let v = r.recv_json().unwrap();
    assert_eq!(v["bin"]["arch"], serde_json::Value::from("x86"));
    assert_eq!(r.recv_json().unwrap(), serde_json::Value::Object(serde_json::Map::new()));
    r.send("x");
    r.next_step();
    r.deliver(b"junk\0");
    r.flush();
    assert_eq!(r.recv(), "");
}

#[test]
fn r2_close_drops_queue() {
    let mut r = R2::from(spawned());
    r.send("a");
    assert!(matches!(r.close(), CloseAction::QuitAndWait { .. }));
    assert_eq!(r.next_step(), Step::Idle);
    r.send("b");
    assert_eq!(r.next_step(), Step::Failed(R2PipeError::Closed));
    assert_eq!(r.close(), CloseAction::AlreadyClosed);
}

#[test]
fn r2_end_of_stream() {
    let mut r = ready();
    r.send("a");
    r.next_step();
    r.deliver(b"half");
    assert_eq!(r.end_of_stream(), R2PipeError::Transport);
    assert_eq!(r.next_step(), Step::Idle);
    assert_eq!(r.recv(), "");
}

#[test]
fn r2_keeps_last_response_on_decode_error() {
    let mut r = ready();
    r.send("a");
    r.next_step();
    r.deliver(b"kept\0");
    r.send("b");
    r.next_step();
    assert_eq!(r.deliver(b"\xff\0"), Some(Err(R2PipeError::Decode)));
    assert_eq!(r.recv(), "kept");
}

#[test]
fn spawned_session_waits_for_greeting() {
    let mut p = spawned();
    assert!(p.waiting);
    assert_eq!(p.receive(b"\0"), Some(Ok(String::new())));
    assert!(!p.waiting);
    assert_eq!(p.cmd("i"), Ok(b"i\n".to_vec()));
    let mut r = R2::from(spawned());
    r.send("?e x");
    assert_eq!(r.next_step(), Step::Read);
    assert_eq!(r.deliver(b"\0"), Some(Ok(())));
    assert_eq!(r.next_step(), Step::Write(b"?e x\n".to_vec()));
}

#[test]
fn selector_named_pipes() {
    assert!(is_pipe_path_text("/tmp/r2-in"));
    assert!(is_pipe_path_text("\\\\.\\pipe\\r2"));
    assert!(!is_pipe_path_text("tmp/r2"));
    assert!(!is_pipe_path_text(""));
    let c = cfg(&[("R2PIPE_IN", "/tmp/r2-in"), ("R2PIPE_OUT", "/tmp/r2-out")]);
    let expected = ChannelSpec::NamedPipes { input: "/tmp/r2-in".to_string(), output: "/tmp/r2-out".to_string() };
    assert_eq!(select(Some("/bin/ls".to_string()), &c), Ok(expected));
    assert!(R2::in_session(&c));
    let mixed = cfg(&[("R2PIPE_IN", "/tmp/r2-in"), ("R2PIPE_OUT", "6")]);
    assert_eq!(inherited_session(&mixed), None);
    assert_eq!(select(None, &mixed), Err(R2PipeError::Configuration));
    let mut p = R2Pipe::attach(ChannelSpec::NamedPipes { input: "/a".to_string(), output: "/b".to_string() });
    assert!(!p.waiting);
    assert_eq!(p.close(), CloseAction::Release);
    assert_eq!(p.close(), CloseAction::AlreadyClosed);
}
