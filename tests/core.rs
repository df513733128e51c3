use server::client::ReadBuffer;
use server::client::ReadOutcome;
use server::client::ReadResult;
use server::client::Client;
use server::server::classify;
use server::server::Server;
use server::server::ServerEvent;
use server::server::Wake;
use server::server::LISTENER;
use server::service::Service;
use server::text::is_whitespace;
use server::text::normalize_text;

const SECRET: &str = "open sesame";

fn connect(server: &mut Server, addr: &str) -> usize {
    let h = server.next_token().expect("handles left");
    let e = server.add_client(h, addr.to_string());
    assert_eq!(e, Some(ServerEvent::Connect(h)));
    h
}

fn send(server: &mut Server, h: usize, bytes: &[u8]) -> Option<ServerEvent> {
    let mut buf = ReadBuffer::new();
    assert!(buf.advance(ReadOutcome::Bytes(bytes.to_vec())).is_none());
    let result = buf.advance(ReadOutcome::WouldBlock).expect("read loop ends");
    server.client_event(h, result)
}

#[test]
fn normalize_trims_and_collapses() {
    assert_eq!(normalize_text("  a   b \t c  "), "a b c");
    assert_eq!(normalize_text("hello"), "hello");
    assert_eq!(normalize_text("x\r\n\r\ny"), "x y");
}

#[test]
fn normalize_empty_and_blank() {
    assert_eq!(normalize_text(""), "");
    assert_eq!(normalize_text(" \t\n "), "");
}

#[test]
fn normalize_unicode_whitespace() {
    assert_eq!(normalize_text("\u{3000}a\u{00A0}\u{2003}b\u{85}"), "a b");
    assert_eq!(normalize_text("é  ü"), "é ü");
}

#[test]
fn normalize_is_idempotent_on_samples() {
    for s in ["", "  a  b ", "a\tb\nc", " \u{2028} x ", "plain", "a  "] {
        let once = normalize_text(s);
        assert_eq!(normalize_text(&once), once);
    }
}

#[test]
fn whitespace_set() {
    for c in ['\t', '\n', '\u{0B}', '\u{0C}', '\r', ' ', '\u{85}', '\u{A0}', '\u{1680}', '\u{2000}',
        '\u{200A}', '\u{2028}', '\u{2029}', '\u{202F}', '\u{205F}', '\u{3000}'] {
        assert!(is_whitespace(c), "{:?}", c);
        assert_eq!(is_whitespace(c), c.is_whitespace());
    }
    for c in ['a', '0', '\u{200B}', '\u{1F}', '\u{180E}', '\u{FEFF}'] {
        assert!(!is_whitespace(c), "{:?}", c);
        assert_eq!(is_whitespace(c), c.is_whitespace());
    }
}

#[test]
fn classify_bytes_text_and_admin() {
    let secret = SECRET.to_string();
    assert_eq!(
        classify(3, vec![0xFF, 0x00, 0xFE], false, &secret),
        Some(ServerEvent::ReceiveBytes(3, vec![0xFF, 0x00, 0xFE]))
    );
    assert_eq!(
        classify(3, " h\u{e9}llo  w ".as_bytes().to_vec(), false, &secret),
        Some(ServerEvent::ReceiveUTF8(3, "h\u{e9}llo w".to_string()))
    );
    assert_eq!(
        classify(4, b"status".to_vec(), true, &secret),
        Some(ServerEvent::ReceiveAdminUTF8(4, "status".to_string()))
    );
    assert_eq!(classify(5, b"  open   sesame\n".to_vec(), false, &secret), None);
    assert_eq!(
        classify(5, b"open sesame".to_vec(), true, &secret),
        Some(ServerEvent::ReceiveAdminUTF8(5, "open sesame".to_string()))
    );
}

#[test]
fn classify_is_deterministic() {
    let secret = SECRET.to_string();
    for (bytes, p) in [(b"a  b".to_vec(), false), (b"a  b".to_vec(), true), (vec![0xC3u8], false),
        (b"open sesame".to_vec(), false)] {
        assert_eq!(classify(9, bytes.clone(), p, &secret), classify(9, bytes, p, &secret));
    }
}

#[test]
fn classify_overlong_is_bytes() {
    let secret = SECRET.to_string();
    assert_eq!(
        classify(1, vec![0xC0, 0xAF], false, &secret),
        Some(ServerEvent::ReceiveBytes(1, vec![0xC0, 0xAF]))
    );
    assert_eq!(classify(1, vec![], false, &secret), Some(ServerEvent::ReceiveUTF8(1, String::new())));
}

#[test]
fn handles_strictly_increase() {
    let mut server = Server::new(SECRET);
    let mut last = LISTENER;
    let mut seen = Vec::new();
    for i in 0..10 {
        let h = connect(&mut server, &format!("127.0.0.1:{}", 5000 + i));
        assert!(h > last);
        assert!(!seen.contains(&h));
        seen.push(h);
        last = h;
    }
    assert_eq!(seen, (1..=10).collect::<Vec<usize>>());
}

#[test]
fn handle_not_reused_after_disconnect_or_failed_registration() {
    let mut server = Server::new(SECRET);
    let a = connect(&mut server, "127.0.0.1:1");
    assert!(server.disconnect(a).is_some());
    let skipped = server.next_token().unwrap();
    let b = connect(&mut server, "127.0.0.1:2");
    assert!(a < skipped && skipped < b);
}

#[test]
fn add_client_refuses_stale_listener_or_duplicate() {
    let mut server = Server::new(SECRET);
    assert_eq!(server.add_client(LISTENER, "x".to_string()), None);
    let h = server.next_token().unwrap();
    assert_eq!(server.add_client(h + 1, "x".to_string()), None);
    assert_eq!(server.add_client(h, "x".to_string()), Some(ServerEvent::Connect(h)));
    assert_eq!(server.add_client(h, "y".to_string()), None);
    assert_eq!(server.get_client(h).unwrap().socket_address(), "x");
    assert_eq!(server.get_client(h).unwrap().token(), h);
}

#[test]
fn scenario_non_utf8_bytes() {
    let mut server = Server::new(SECRET);
    let h = connect(&mut server, "127.0.0.1:40000");
    let e = send(&mut server, h, &[0xFF, 0x00, 0xFE]);
    assert_eq!(e, Some(ServerEvent::ReceiveBytes(h, vec![0xFF, 0x00, 0xFE])));
    assert!(!server.is_privileged(h));
}

#[test]
fn scenario_padded_secret_promotes() {
    let mut server = Server::new(SECRET);
    let h = connect(&mut server, "127.0.0.1:40001");
    assert_eq!(send(&mut server, h, b"   open    sesame   "), None);
    assert!(server.is_privileged(h));
    assert_eq!(
        send(&mut server, h, b"status"),
        Some(ServerEvent::ReceiveAdminUTF8(h, "status".to_string()))
    );
}

#[test]
fn scenario_zero_byte_read_disconnects() {
    let mut server = Server::new(SECRET);
    let h = connect(&mut server, "127.0.0.1:40002");
    let mut buf = ReadBuffer::new();
    let result = buf.advance(ReadOutcome::Bytes(vec![])).unwrap();
    assert_eq!(result, ReadResult::Closed);
    let e = server.client_event(h, result).unwrap();
    assert_eq!(e, ServerEvent::Disconnect(h));
    assert_eq!(Service::reaction(&e), Some(h));
    assert!(server.disconnect(h).is_some());
    assert!(server.get_client(h).is_none());
}

#[test]
fn scenario_two_clients_hello() {
    let mut server = Server::new(SECRET);
    let a = connect(&mut server, "127.0.0.1:40003");
    let b = connect(&mut server, "127.0.0.1:40004");
    assert_ne!(a, b);
    assert_eq!(send(&mut server, a, b"hello"), Some(ServerEvent::ReceiveUTF8(a, "hello".to_string())));
    assert_eq!(send(&mut server, b, b"hello"), Some(ServerEvent::ReceiveUTF8(b, "hello".to_string())));
}

#[test]
fn privilege_is_kept_until_disconnect() {
    let mut server = Server::new(SECRET);
    let h = connect(&mut server, "127.0.0.1:1");
    let other = connect(&mut server, "127.0.0.1:2");
    assert_eq!(send(&mut server, h, b"open sesame"), None);
    assert_eq!(
        send(&mut server, h, b"open sesame"),
        Some(ServerEvent::ReceiveAdminUTF8(h, "open sesame".to_string()))
    );
    assert_eq!(send(&mut server, h, &[0xFF]), Some(ServerEvent::ReceiveBytes(h, vec![0xFF])));
    assert!(server.is_privileged(h));
    assert!(!server.is_privileged(other));
    assert_eq!(
        server.client_event(h, ReadResult::Failed),
        Some(ServerEvent::Disconnect(h))
    );
    assert!(server.is_privileged(h));
    server.disconnect(h);
    assert!(!server.is_privileged(h));
    assert!(server.get_client(h).is_none());
}

#[test]
fn disconnect_is_idempotent() {
    let mut server = Server::new(SECRET);
    let h = connect(&mut server, "127.0.0.1:1");
    assert!(server.disconnect(h).is_some());
    assert!(server.disconnect(h).is_none());
    assert!(server.disconnect(77).is_none());
    assert_eq!(send(&mut server, h, b"late"), None);
}

#[test]
fn unknown_handle_yields_nothing() {
    let mut server = Server::new(SECRET);
    assert_eq!(server.client_event(5, ReadResult::Closed), None);
    assert_eq!(server.client_event(5, ReadResult::Data(b"open sesame".to_vec())), None);
    assert!(!server.is_privileged(5));
}

#[test]
fn wake_dispatch() {
    let mut server = Server::new(SECRET);
    let h = connect(&mut server, "127.0.0.1:1");
    assert_eq!(server.wake(LISTENER, true), Wake::Accept);
    assert_eq!(server.wake(LISTENER, false), Wake::Accept);
    assert_eq!(server.wake(h, true), Wake::Read(h));
    assert_eq!(server.wake(h, false), Wake::Ignore);
    assert_eq!(server.wake(h + 1, true), Wake::Ignore);
}

#[test]
fn read_buffer_grows_on_exact_fill() {
    let mut buf = ReadBuffer::new();
    assert_eq!(buf.window(), 4096);
    assert_eq!(buf.advance(ReadOutcome::Bytes(vec![1; 100])), None);
    assert_eq!(buf.window(), 3996);
    assert_eq!(buf.advance(ReadOutcome::Interrupted), None);
    assert_eq!(buf.advance(ReadOutcome::Bytes(vec![2; 3996])), None);
    assert_eq!(buf.window(), 1024);
    assert_eq!(buf.advance(ReadOutcome::Bytes(vec![3; 24])), None);
    assert_eq!(buf.window(), 1000);
    let mut expected = vec![1u8; 100];
    expected.extend(vec![2u8; 3996]);
    expected.extend(vec![3u8; 24]);
    assert_eq!(buf.advance(ReadOutcome::WouldBlock), Some(ReadResult::Data(expected)));
}

#[test]
fn read_buffer_ends() {
    let mut buf = ReadBuffer::new();
    assert_eq!(buf.advance(ReadOutcome::WouldBlock), Some(ReadResult::Data(vec![])));
    let mut buf = ReadBuffer::new();
    assert_eq!(buf.advance(ReadOutcome::Bytes(vec![7; 10])), None);
    assert_eq!(buf.advance(ReadOutcome::Bytes(vec![])), Some(ReadResult::Closed));
    let mut buf = ReadBuffer::new();
    assert_eq!(buf.advance(ReadOutcome::Failed), Some(ReadResult::Failed));
}

#[test]
fn client_accessors() {
    let c = Client::new(12, "127.0.0.1:9".to_string());
    assert_eq!(c.token(), 12);
    assert_eq!(c.socket_address(), "127.0.0.1:9");
}

#[test]
fn service_reacts_only_to_disconnect() {
    assert_eq!(Service::reaction(&ServerEvent::Disconnect(4)), Some(4));
    assert_eq!(Service::reaction(&ServerEvent::Connect(4)), None);
    assert_eq!(Service::reaction(&ServerEvent::ReceiveUTF8(4, "x".to_string())), None);
    assert_eq!(Service::reaction(&ServerEvent::ReceiveAdminUTF8(4, "x".to_string())), None);
    assert_eq!(Service::reaction(&ServerEvent::ReceiveBytes(4, vec![1])), None);
}
