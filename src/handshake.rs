//! The HTTP upgrade that opens a WebSocket connection.

use base64::Engine;
use sha1::Digest;
use vstd::prelude::*;
use vstd::slice::slice_to_vec;
use vstd::utf8::encode_utf8;

use crate::frame::{encode_frame, zero_key, FrameModel, OpCode, WebSocketFrame};

verus! {

/// How many request headers the upgrade request may carry.
pub const HEADER_CAPACITY: usize = 32;

/// The SHA-1 digest of a byte sequence.
pub uninterp spec fn sha1_of(data: Seq<u8>) -> Seq<u8>;

/// Standard padded base64 text of a byte sequence.
pub uninterp spec fn base64_of(data: Seq<u8>) -> Seq<char>;

/// The headers, as name and value bytes, that an HTTP request parser holds
/// after reading a buffer with room for `capacity` of them; `None` where it
/// reports the request as invalid. On a request that ends early these are all
/// `capacity` slots, the unfilled ones with an empty name and value.
pub uninterp spec fn parsed_headers(buf: Seq<u8>, capacity: nat) -> Option<
    Seq<(Seq<u8>, Seq<u8>)>,
>;

/// Relies on `sha1::Sha1` through `Digest::digest`: the SHA-1 digest of the
/// input, which is twenty bytes long.
#[verifier::external_body]
fn sha1_digest(data: &[u8]) -> (r: Vec<u8>)
    ensures
        r@ == sha1_of(data@),
        r@.len() == 20,
{
    sha1::Sha1::digest(data).to_vec()
}

/// Relies on `base64::engine::general_purpose::STANDARD.encode`: the padded
/// base64 text of the input, four characters for each started group of three
/// bytes (it panics only where that length would overflow `usize`).
#[verifier::external_body]
fn base64_encode(data: &[u8]) -> (r: String)
    requires
        data@.len() <= usize::MAX / 2,
    ensures
        r@ == base64_of(data@),
        r@.len() == 4 * ((data@.len() + 2) / 3),
{
    base64::engine::general_purpose::STANDARD.encode(data)
}

/// Relies on `httparse::Request::parse`: `None` where it returns an error,
/// else the name and value of each header in the request's header slice
/// (the whole slice, placeholders included, where the request ends early).
#[verifier::external_body]
fn request_headers(buf: &[u8], capacity: usize) -> (r: Option<Vec<(Vec<u8>, Vec<u8>)>>)
    ensures
        r.deep_view() == parsed_headers(buf@, capacity as nat),
{
    let mut headers = vec![httparse::EMPTY_HEADER; capacity];
    let mut req = httparse::Request::new(&mut headers);
    match req.parse(buf) {
        Ok(_) => Some(req.headers.iter().map(|h| (h.name.as_bytes().to_vec(), h.value.to_vec())).collect()),
        Err(_) => None,
    }
}

/// The fixed string that RFC 6455 appends to the client's key.
pub open spec fn guid_bytes() -> Seq<u8> {
    encode_utf8("258EAFA5-E914-47DA-95CA-C5AB0DC85B11"@)
}

/// The name of the header that carries the client's key.
pub open spec fn key_header_name() -> Seq<u8> {
    encode_utf8("Sec-WebSocket-Key"@)
}

/// The value of the first header named `Sec-WebSocket-Key`, if any.
pub open spec fn key_in(headers: Seq<(Seq<u8>, Seq<u8>)>) -> Option<Seq<u8>>
    decreases headers.len(),
{
    if headers.len() == 0 {
        None
    } else if headers[0].0 == key_header_name() {
        Some(headers[0].1)
    } else {
        key_in(headers.drop_first())
    }
}

/// The client key to answer: the header's value, or `"0"` where the header is
/// missing.
pub open spec fn websocket_key(headers: Seq<(Seq<u8>, Seq<u8>)>) -> Seq<u8> {
    match key_in(headers) {
        Some(k) => k,
        None => seq![0x30u8],
    }
}

/// The `Sec-WebSocket-Accept` value for a client key.
pub open spec fn accept_value(key: Seq<u8>) -> Seq<char> {
    base64_of(sha1_of(key + guid_bytes()))
}

/// The text of the `101 Switching Protocols` response.
pub open spec fn response_text(accept: Seq<char>) -> Seq<char> {
    "HTTP/1.1 101 Switching Protocols\r\nUpgrade: websocket\r\nConnection: Upgrade\r\nSec-WebSocket-Accept: "@
        + accept + "\r\nAccess-Control-Allow-Origin: *\r\n\r\n"@
}

/// The payload of the frame that announces a new session: the open marker and
/// the session's parameters as JSON.
pub open spec fn open_payload_text(sid: Seq<char>) -> Seq<char> {
    "0{\"sid\":\""@ + sid
        + "\",\"upgrades\":[],\"pingInterval\":25000,\"pingTimeout\":20000,\"maxPayload\":1000000}"@
}

/// The frame that announces a new session.
pub open spec fn open_frame(sid: Seq<char>) -> FrameModel {
    FrameModel {
        fin: true,
        opcode: OpCode::Binary,
        masked: false,
        masking_key: zero_key(),
        payload: encode_utf8(open_payload_text(sid)),
    }
}

/// Everything written back on a successful upgrade: the response, then the
/// session announcement.
pub open spec fn handshake_bytes(accept: Seq<char>, sid: Seq<char>) -> Seq<u8> {
    encode_utf8(response_text(accept)) + encode_frame(open_frame(sid))
}

fn bytes_equal(a: &[u8], b: &[u8]) -> (r: bool)
    ensures
        r == (a@ == b@),
{
    if a.len() != b.len() {
        return false;
    }
    let mut i: usize = 0;
    while i < a.len()
        invariant
            a@.len() == b@.len(),
            i <= a@.len(),
            forall|j: int| 0 <= j < i ==> a@[j] == b@[j],
        decreases a@.len() - i,
    {
        if a[i] != b[i] {
            return false;
        }
        i += 1;
    }
    assert(a@ =~= b@);
    true
}

/// The client key among parsed headers, or `"0"` where none carries it.
pub fn find_websocket_key(headers: &Vec<(Vec<u8>, Vec<u8>)>) -> (r: Vec<u8>)
    ensures
        r@ == websocket_key(headers.deep_view()),
{
    let ghost hs = headers.deep_view();
    let name = "Sec-WebSocket-Key".as_bytes();
    let mut i: usize = 0;
    assert(hs.skip(0) =~= hs);
    while i < headers.len()
        invariant
            i <= headers@.len(),
            hs.len() == headers@.len(),
            hs == headers.deep_view(),
            name@ == key_header_name(),
            key_in(hs) == key_in(hs.skip(i as int)),
        decreases headers@.len() - i,
    {
        assert(hs.skip(i as int)[0] == hs[i as int]);
        assert(hs[i as int] == (headers@[i as int].0@, headers@[i as int].1@));
        if bytes_equal(headers[i].0.as_slice(), name) {
            return slice_to_vec(headers[i].1.as_slice());
        }
        assert(hs.skip(i as int).drop_first() =~= hs.skip(i + 1));
        i += 1;
    }
    assert(hs.skip(i as int).len() == 0);
    slice_to_vec(&[0x30u8])
}

/// The `Sec-WebSocket-Accept` value for a client key.
pub fn accept_key(key: &[u8]) -> (r: String)
    ensures
        r@ == accept_value(key@),
        r@.len() == 28,
{
    let mut input = slice_to_vec(key);
    let mut guid = slice_to_vec("258EAFA5-E914-47DA-95CA-C5AB0DC85B11".as_bytes());
    input.append(&mut guid);
    let digest = sha1_digest(input.as_slice());
    base64_encode(digest.as_slice())
}

fn push_text(out: &mut Vec<u8>, s: &str)
    ensures
        final(out)@ == old(out)@ + encode_utf8(s@),
{
    let mut b = slice_to_vec(s.as_bytes());
    out.append(&mut b);
}

/// The bytes written back on a successful upgrade, for a computed accept
/// value and a session identifier.
pub fn handshake_reply(accept: &str, sid: &str) -> (r: Vec<u8>)
    ensures
        r@ == handshake_bytes(accept@, sid@),
{
    let mut text = String::from_str(
        "HTTP/1.1 101 Switching Protocols\r\nUpgrade: websocket\r\nConnection: Upgrade\r\nSec-WebSocket-Accept: ",
    );
    text.append(accept);
    text.append("\r\nAccess-Control-Allow-Origin: *\r\n\r\n");
    let mut out: Vec<u8> = Vec::new();
    push_text(&mut out, text.as_str());
    let mut payload_text = String::from_str("0{\"sid\":\"");
    payload_text.append(sid);
    payload_text.append(
        "\",\"upgrades\":[],\"pingInterval\":25000,\"pingTimeout\":20000,\"maxPayload\":1000000}",
    );
    let mut payload: Vec<u8> = Vec::new();
    push_text(&mut payload, payload_text.as_str());
    assert(payload@ =~= encode_utf8(open_payload_text(sid@)));
    let frame = WebSocketFrame::new(true, OpCode::Binary, false, [0u8; 4], payload);
    assert(frame.masking_key@ =~= zero_key());
    let mut frame_bytes = frame.to_bytes();
    out.append(&mut frame_bytes);
    assert(out@ =~= handshake_bytes(accept@, sid@));
    out
}

/// Answers the first request on a connection: `None` where it is no valid
/// HTTP request, else the upgrade response and the session announcement.
pub fn perform_handshake(buf: &[u8], sid: &str) -> (r: Option<Vec<u8>>)
    ensures
        match parsed_headers(buf@, HEADER_CAPACITY as nat) {
            None => r is None,
            Some(hs) => r matches Some(bytes) && bytes@ == handshake_bytes(
                accept_value(websocket_key(hs)),
                sid@,
            ),
        },
{
    match request_headers(buf, HEADER_CAPACITY) {
        None => None,
        Some(headers) => {
            let key = find_websocket_key(&headers);
            let accept = accept_key(key.as_slice());
            Some(handshake_reply(accept.as_str(), sid))
        },
    }
}

} // verus!
