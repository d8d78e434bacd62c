use dupe_socket::connection::{Connection, ReadEvent, Step};
use dupe_socket::frame::{OpCode, WebSocketFrame};
use dupe_socket::session::{start_session, Duplicate, Reply};

const REQUEST: &str = "GET / HTTP/1.1\r\nHost: h\r\nSec-WebSocket-Key: dGhlIHNhbXBsZSBub25jZQ==\r\n\r\n";

#[test]
fn idle_and_closed_reads() {
    let mut c = Connection::new("sid".to_string());
    assert!(matches!(c.on_read(ReadEvent::WouldBlock), Step::Wait));
    assert!(matches!(c.on_read(ReadEvent::Failed), Step::Close));
    assert!(matches!(c.on_read(ReadEvent::Data(Vec::new())), Step::Close));
    assert!(!c.did_handshake);
}

#[test]
fn upgrade_then_messages() {
    let mut c = Connection::new("sid".to_string());
    assert!(matches!(c.on_read(ReadEvent::Data(b"\x01junk\r\n\r\n".to_vec())), Step::Rejected));
    assert!(!c.did_handshake);
    match c.on_read(ReadEvent::Data(REQUEST.as_bytes().to_vec())) {
        Step::Upgrade(bytes) => {
            let text = String::from_utf8_lossy(&bytes).to_string();
            assert!(text.contains("Sec-WebSocket-Accept: s3pPLMBiTxaQ9kYGzzhZRbK+xOo=\r\n"));
        }
        other => panic!("unexpected {:?}", other),
    }
    assert!(c.did_handshake);
    let dups = vec![
        Duplicate { file_name: "a".to_string(), first_dir_match: "/1/a".to_string(), second_dir_match: vec!["/2/a".to_string()] },
        Duplicate { file_name: "b".to_string(), first_dir_match: "/1/b".to_string(), second_dir_match: vec!["/2/b".to_string()] },
    ];
    start_session(&mut c.session, dups).unwrap();
    let msg = WebSocketFrame::new(true, OpCode::Text, false, [0; 4], b"4next:;0".to_vec()).to_bytes();
    assert!(matches!(c.on_read(ReadEvent::Data(msg)), Step::Message(Ok(Reply::Render))));
    assert_eq!(c.session.as_ref().unwrap().first_window.index, 1);
}

#[test]
fn failed_upgrade_write_returns_to_start() {
    let mut c = Connection::new("x".to_string());
    assert!(matches!(c.on_read(ReadEvent::Data(REQUEST.as_bytes().to_vec())), Step::Upgrade(_)));
    c.upgrade_not_sent();
    assert!(!c.did_handshake);
    assert!(matches!(c.on_read(ReadEvent::Data(REQUEST.as_bytes().to_vec())), Step::Upgrade(_)));
}
