use dupe_socket::frame::{OpCode, WebSocketFrame};
use dupe_socket::handshake::{accept_key, find_websocket_key, handshake_reply, perform_handshake};

const REQUEST: &str = "GET /socket HTTP/1.1\r\nHost: localhost:8000\r\nUpgrade: websocket\r\nConnection: Upgrade\r\nSec-WebSocket-Key: dGhlIHNhbXBsZSBub25jZQ==\r\nSec-WebSocket-Version: 13\r\n\r\n";

fn split_response(bytes: &[u8]) -> (String, Vec<u8>) {
    let end = bytes.windows(4).position(|w| w == b"\r\n\r\n").unwrap() + 4;
    (String::from_utf8(bytes[..end].to_vec()).unwrap(), bytes[end..].to_vec())
}

#[test]
fn accept_key_of_rfc_sample() {
    assert_eq!(accept_key(b"dGhlIHNhbXBsZSBub25jZQ=="), "s3pPLMBiTxaQ9kYGzzhZRbK+xOo=");
}

#[test]
fn accept_key_of_missing_key_sentinel() {
    let a = accept_key(b"0");
    assert_eq!(a.len(), 28);
    assert_ne!(a, accept_key(b"1"));
}

#[test]
fn handshake_answers_upgrade_request() {
    let out = perform_handshake(REQUEST.as_bytes(), "abc").unwrap();
    let (head, rest) = split_response(&out);
    assert_eq!(
        head,
        "HTTP/1.1 101 Switching Protocols\r\nUpgrade: websocket\r\nConnection: Upgrade\r\nSec-WebSocket-Accept: s3pPLMBiTxaQ9kYGzzhZRbK+xOo=\r\nAccess-Control-Allow-Origin: *\r\n\r\n"
    );
    let frame = WebSocketFrame::from_bytes(&rest).unwrap();
    assert_eq!(frame.op_code, OpCode::Binary);
    assert!(!frame.mask);
    assert_eq!(
        String::from_utf8(frame.payload_data).unwrap(),
        "0{\"sid\":\"abc\",\"upgrades\":[],\"pingInterval\":25000,\"pingTimeout\":20000,\"maxPayload\":1000000}"
    );
}

#[test]
fn handshake_without_key_uses_sentinel() {
    let req = "GET / HTTP/1.1\r\nHost: x\r\n\r\n";
    let out = perform_handshake(req.as_bytes(), "s").unwrap();
    let (head, _) = split_response(&out);
    assert!(head.contains(&format!("Sec-WebSocket-Accept: {}\r\n", accept_key(b"0"))));
}

#[test]
fn handshake_rejects_invalid_request() {
    assert!(perform_handshake(b"GET / HTTP/1.1\r\nBad Header\r\n\r\n", "s").is_none());
    assert!(perform_handshake(b"\x01\x02 nonsense\r\n\r\n", "s").is_none());
}

#[test]
fn key_lookup_takes_first_matching_header() {
    let headers = vec![
        (b"Host".to_vec(), b"x".to_vec()),
        (b"Sec-WebSocket-Key".to_vec(), b"first".to_vec()),
        (b"Sec-WebSocket-Key".to_vec(), b"second".to_vec()),
    ];
    assert_eq!(find_websocket_key(&headers), b"first".to_vec());
    let none = vec![(b"sec-websocket-key".to_vec(), b"lower".to_vec())];
    assert_eq!(find_websocket_key(&none), b"0".to_vec());
}

#[test]
fn reply_holds_response_then_announcement() {
    let out = handshake_reply("ACCEPT", "id7");
    let (head, rest) = split_response(&out);
    assert!(head.ends_with("Sec-WebSocket-Accept: ACCEPT\r\nAccess-Control-Allow-Origin: *\r\n\r\n"));
    assert_eq!(rest[0], 0x82);
    let frame = WebSocketFrame::from_bytes(&rest).unwrap();
    assert!(frame.payload_data.starts_with(b"0{\"sid\":\"id7\""));
}
