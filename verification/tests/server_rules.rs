use muon::servers::{
    address_options, after_head, alpn_match, alpn_protocols, backlog_or_default, binding_options,
    connection_start, connection_version_of, handler_kind, handler_name, is_h2c_upgrade, listen_addresses,
    opens_tls_handshake, sends_goaway, split_address, timestamp, AfterHead, ConnectionStart, HandlerKind, Http2Failure, HttpVersion,
    TlsMode,
};
use muon::settings::OneOrMany;

#[test]
fn alpn_names() {
    assert!(matches!(alpn_match(b"h2"), Some(HttpVersion::Http2)));
    assert!(matches!(alpn_match(b"http/1.1"), Some(HttpVersion::Http11)));
    assert!(matches!(alpn_match(b"http/1.0"), Some(HttpVersion::Http10)));
    assert!(matches!(alpn_match(b"http/0.9"), Some(HttpVersion::Http09)));
    assert!(alpn_match(b"h3").is_none());
    assert!(alpn_match(b"").is_none());
}

#[test]
fn protocol_tables() {
    let o = address_options("http").unwrap();
    assert!(o.allow_h2c && o.allow_prior_knowledge && o.assumed.is_none() && o.tls == TlsMode::Plain);
    let o = address_options("https").unwrap();
    assert!(o.allow_h2c && !o.allow_prior_knowledge && o.tls == TlsMode::Always);
    let o = binding_options("https").unwrap();
    assert!(!o.allow_h2c && !o.allow_prior_knowledge && o.tls == TlsMode::Always);
    let o = address_options("httpx").unwrap();
    assert!(o.allow_h2c && o.allow_prior_knowledge && o.tls == TlsMode::Detect);
    let o = binding_options("http1.0").unwrap();
    assert!(matches!(o.assumed, Some(HttpVersion::Http10)));
    assert!(!o.allow_h2c);
    assert!(address_options("unix").unwrap().unix);
    assert!(binding_options("unix").is_none());
    assert!(address_options("ftp").is_none());
}

#[test]
fn splitting_addresses() {
    let (p, l) = split_address("https://0.0.0.0:8002");
    assert_eq!(p, "https");
    assert_eq!(l.as_deref(), Some("0.0.0.0:8002"));
    let (p, l) = split_address("unix:///tmp/s://x");
    assert_eq!(p, "unix");
    assert_eq!(l.as_deref(), Some("/tmp/s://x"));
    let (p, l) = split_address("localhost:80");
    assert_eq!(p, "localhost:80");
    assert!(l.is_none());
    let (p, l) = split_address("");
    assert_eq!(p, "");
    assert!(l.is_none());
}

#[test]
fn addresses_handlers_and_alpn() {
    let cli = vec!["http://a".to_string()];
    let s = OneOrMany::Many(vec!["https://b".to_string()]);
    assert_eq!(listen_addresses(Some(&cli), &s), vec!["http://a".to_string(), "https://b".to_string()]);
    assert_eq!(listen_addresses(None, &OneOrMany::One("x".to_string())), vec!["x".to_string()]);
    assert_eq!(handler_name(Some("samicpp"), Some("simple")), "samicpp");
    assert_eq!(handler_name(None, Some("debug")), "debug");
    assert_eq!(handler_name(None, None), "simple");
    assert_eq!(handler_kind("samicpp", false), Some(HandlerKind::Samicpp));
    assert_eq!(handler_kind("debug", false), None);
    assert_eq!(handler_kind("debug", true), Some(HandlerKind::Debug));
    assert_eq!(handler_kind("other", true), None);
    assert_eq!(alpn_protocols(Some("h2,http/1.1"), None), Some(vec![b"h2".to_vec(), b"http/1.1".to_vec()]));
    let s = OneOrMany::One("h2".to_string());
    assert_eq!(alpn_protocols(None, Some(&s)), Some(vec![b"h2".to_vec()]));
    assert_eq!(alpn_protocols(None, None), None);
    assert_eq!(backlog_or_default(None), 1024);
    assert_eq!(backlog_or_default(Some(1)), 1);
}

#[test]
fn starting_connections() {
    let preface = b"PRI * HTTP/2.0\r\n\r\nSM\r\n\r\n";
    assert_eq!(connection_start(&Some(HttpVersion::Http2), false, false, &[]), ConnectionStart::Http2);
    assert_eq!(connection_start(&Some(HttpVersion::Http11), true, false, &[]), ConnectionStart::Http1Upgradable);
    assert_eq!(connection_start(&Some(HttpVersion::Http10), false, true, preface), ConnectionStart::Http1);
    assert_eq!(connection_start(&None, false, true, preface), ConnectionStart::PriorKnowledge);
    assert_eq!(connection_start(&None, false, false, preface), ConnectionStart::ReadHead);
    assert_eq!(connection_start(&None, true, true, b"GET / HTTP/1.1\r\n"), ConnectionStart::ReadHead);
    assert!(matches!(connection_version_of(Some(Some(b"h2")), None), Some(HttpVersion::Http2)));
    assert!(connection_version_of(Some(None), Some(HttpVersion::Http11)).is_none());
    assert!(matches!(connection_version_of(None, Some(HttpVersion::Http11)), Some(HttpVersion::Http11)));
}

#[test]
fn after_the_head() {
    assert_eq!(after_head(true, true, Some("PRI"), "*", Some("HTTP/2.0"), 0), AfterHead::PriorKnowledge);
    assert_eq!(after_head(false, true, Some("PRI"), "*", Some("HTTP/2.0"), 0), AfterHead::Upgradable);
    assert_eq!(after_head(true, false, Some("PRI"), "*", Some("HTTP/2.0"), 1), AfterHead::Close);
    assert_eq!(after_head(true, false, None, "/", None, 0), AfterHead::Close);
    assert!(is_h2c_upgrade(Some("H2C")));
    assert!(!is_h2c_upgrade(Some("websocket")));
    assert!(!is_h2c_upgrade(None));
    assert!(opens_tls_handshake(22));
    assert!(!opens_tls_handshake(b'G'));
    assert!(sends_goaway(Http2Failure::ProtocolError));
    assert!(!sends_goaway(Http2Failure::Other));
}

#[test]
fn timestamps() {
    assert_eq!(timestamp(0), " 0\u{3bc}s 0ns");
    assert_eq!(timestamp(1_500_000), " 1ms 500\u{3bc}s 0ns");
    assert_eq!(timestamp(2_000_000_123), " 2s 0ms 0\u{3bc}s 123ns");
    assert_eq!(timestamp(90_061_001_001_001), "1d 1d 1m 1s 1ms 1\u{3bc}s 1ns");
}
