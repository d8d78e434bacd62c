//! The decisions of one connection: the upgrade first, then one message per
//! read.

use vstd::prelude::*;

use crate::handshake::{
    accept_value, handshake_bytes, parsed_headers, perform_handshake, websocket_key,
    HEADER_CAPACITY,
};
use crate::session::{
    handle_message, message_effect, session_wf, CompareManager, Reply, SessionError,
};

verus! {

/// What a read on the socket gave.
pub enum ReadEvent {
    /// Nothing was ready yet.
    WouldBlock,
    /// Reading failed.
    Failed,
    /// These bytes arrived; none means the peer closed the connection.
    Data(Vec<u8>),
}

/// What the connection has to do next.
#[derive(Debug)]
pub enum Step {
    /// Sleep briefly, then read again.
    Wait,
    /// Stop serving this connection.
    Close,
    /// Write these bytes: the upgrade succeeded.
    Upgrade(Vec<u8>),
    /// The first request was no valid HTTP request; the next read tries again.
    Rejected,
    /// A message was handled, with this outcome.
    Message(Result<Reply, SessionError>),
}

/// The state of one connection.
pub struct Connection {
    /// Whether the upgrade response has gone out.
    pub did_handshake: bool,
    /// The compare session, once a search found duplicates.
    pub session: Option<CompareManager>,
    /// The identifier announced to the client.
    pub sid: String,
}

impl Connection {
    pub open spec fn wf(&self) -> bool {
        session_wf(self.session)
    }

    /// A fresh connection: before the upgrade, without a session.
    pub fn new(sid: String) -> (r: Self)
        ensures
            r.wf(),
            !r.did_handshake,
            r.session is None,
            r.sid == sid,
    {
        Connection { did_handshake: false, session: None, sid }
    }

    /// Returns to the state before the upgrade, for when the response could
    /// not be written.
    pub fn upgrade_not_sent(&mut self)
        ensures
            !final(self).did_handshake,
            final(self).session == old(self).session,
            final(self).sid == old(self).sid,
    {
        self.did_handshake = false;
    }

    /// Decides what to do with the outcome of one read.
    pub fn on_read(&mut self, event: ReadEvent) -> (r: Step)
        requires
            old(self).wf(),
        ensures
            final(self).wf(),
            final(self).sid == old(self).sid,
            match event {
                ReadEvent::WouldBlock => r is Wait && *final(self) == *old(self),
                ReadEvent::Failed => r is Close && *final(self) == *old(self),
                ReadEvent::Data(d) => if d@.len() == 0 {
                    r is Close && *final(self) == *old(self)
                } else if !old(self).did_handshake {
                    final(self).session == old(self).session && match parsed_headers(
                        d@,
                        HEADER_CAPACITY as nat,
                    ) {
                        None => r is Rejected && !final(self).did_handshake,
                        Some(hs) => final(self).did_handshake && (r matches Step::Upgrade(bytes)
                            && bytes@ == handshake_bytes(
                            accept_value(websocket_key(hs)),
                            old(self).sid@,
                        )),
                    }
                } else {
                    final(self).did_handshake && (r matches Step::Message(m) && message_effect(
                        old(self).session,
                        final(self).session,
                        d@,
                        m,
                    ))
                },
            },
    {
        match event {
            ReadEvent::WouldBlock => Step::Wait,
            ReadEvent::Failed => Step::Close,
            ReadEvent::Data(data) => {
                if data.len() == 0 {
                    Step::Close
                } else if !self.did_handshake {
                    match perform_handshake(data.as_slice(), self.sid.as_str()) {
                        Some(bytes) => {
                            self.did_handshake = true;
                            Step::Upgrade(bytes)
                        },
                        None => Step::Rejected,
                    }
                } else {
                    Step::Message(handle_message(&mut self.session, data.as_slice()))
                }
            },
        }
    }
}

} // verus!
