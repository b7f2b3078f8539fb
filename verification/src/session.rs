//! The per-connection session protocol.
//!
//! One session owns one connection. Its loop repeats: read once, turn the
//! bytes into one message, append it to the shared history, respond with the
//! rendered snapshot of the whole history. A zero-byte read means the peer
//! closed: the session ends normally. A read or write failure ends the
//! session as an error. Nothing here touches the transport: the caller reads
//! and writes, and hands each outcome in as a `SessionEvent`.

use vstd::prelude::*;

use crate::codec::decode_message;
use crate::codec::message_of;
use crate::codec::render_snapshot;
use crate::codec::rendered;
use crate::history::History;

verus! {

/// The outcome of one transport operation, as the caller observed it.
pub enum SessionEvent {
    /// One read returned these bytes (at least one).
    Data(Vec<u8>),
    /// A read returned zero bytes: the peer closed the connection.
    PeerClosed,
    /// A read failed with an I/O error.
    ReadFailed,
    /// The previous response could not be written back.
    WriteFailed,
}

/// Where the session stands after a protocol step.
pub enum SessionStatus {
    /// The session continues: wait for the next read.
    Open,
    /// The peer closed the connection; normal termination.
    ClosedByPeer,
    /// An I/O error ended the session; no retry.
    ClosedByError,
}

/// The append-and-respond step at the heart of a session: one read's bytes
/// become one message, the message goes at the end of the shared history, and
/// the response is the rendered snapshot of the whole history, its own
/// message included.
///
/// The caller holds the history exclusively for the whole call, so the append
/// and the snapshot form one atomic step: no other session's append can fall
/// between them, and the response can never miss the message just appended.
pub fn handle_message(history: &mut History, bytes: &Vec<u8>) -> (response: String)
    ensures
        final(history)@ == old(history)@.push(message_of(bytes@)),
        response@ == rendered(final(history)@),
{
    let message = decode_message(bytes);
    history.append(message);
    let snap = history.snapshot();
    render_snapshot(&snap)
}

/// One iteration of the session loop, as a step of the state machine
/// `Connected -> (Reading -> Appending -> Responding) -> Connected`, with the
/// terminal states `ClosedByPeer` and `ClosedByError`.
///
/// Data appends exactly one message and answers with the rendered snapshot;
/// every other event leaves the history untouched, answers nothing, and ends
/// the session — normally on a peer close, as an error on an I/O failure.
pub fn session_step(history: &mut History, event: SessionEvent) -> (r: (
    SessionStatus,
    Option<String>,
))
    ensures
        match event {
            SessionEvent::Data(bytes) => {
                &&& final(history)@ == old(history)@.push(message_of(bytes@))
                &&& r.0 is Open
                &&& r.1 matches Some(response) && response@ == rendered(final(history)@)
            },
            SessionEvent::PeerClosed => {
                &&& final(history)@ == old(history)@
                &&& r.0 is ClosedByPeer
                &&& r.1 is None
            },
            SessionEvent::ReadFailed | SessionEvent::WriteFailed => {
                &&& final(history)@ == old(history)@
                &&& r.0 is ClosedByError
                &&& r.1 is None
            },
        },
{
    match event {
        SessionEvent::Data(bytes) => {
            let response = handle_message(history, &bytes);
            (SessionStatus::Open, Some(response))
        },
        SessionEvent::PeerClosed => (SessionStatus::ClosedByPeer, None),
        SessionEvent::ReadFailed => (SessionStatus::ClosedByError, None),
        SessionEvent::WriteFailed => (SessionStatus::ClosedByError, None),
    }
}

} // verus!
