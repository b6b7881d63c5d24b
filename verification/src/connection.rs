//! The handling of one connection: what to reply to a frame, and what to do
//! next after each read or write.
//!
//! The library performs no I/O. A driver owns the socket, carries out the
//! [`Action`] it is handed and reports the result as an [`Event`]. Parsing,
//! negotiating and encoding never suspend, so they take place within the one
//! step that receives the payload.

use crate::error::{ErrorCode, KafkaError};
use crate::frame::{frame_bytes, frame_length, frame_message, spec_frame_length, LENGTH_PREFIX_LEN};
use crate::header::{spec_correlation_id, spec_parse_header, RequestHeader};
use crate::negotiator::{respond, spec_respond};
use crate::response::{encode_response, Response, ResponseView};
use vstd::prelude::*;
use vstd::slice::slice_subrange;

verus! {

/// The response owed to the payload of a frame, if one can be sent. A header
/// that cannot be decoded is answered with `CorruptMessage` as long as the
/// correlation id can be told; with fewer than eight bytes there is no id to
/// echo and so no response.
pub open spec fn spec_reply(frame: Seq<u8>) -> Option<ResponseView> {
    match spec_parse_header(frame) {
        Ok(header) => Some(spec_respond(header)),
        Err(_) => match spec_correlation_id(frame) {
            Some(correlation_id) => Some(
                ResponseView::Error { correlation_id, error_code: ErrorCode::CorruptMessage },
            ),
            None => None,
        },
    }
}

/// The bytes to write in reply to the payload of a frame: the response body
/// behind its own length prefix.
pub open spec fn spec_handle_frame(frame: Seq<u8>) -> Option<Seq<u8>> {
    match spec_reply(frame) {
        Some(response) => Some(frame_bytes(encode_response(response))),
        None => None,
    }
}

/// A reply, taken by its view.
pub open spec fn reply_view(reply: Option<Response>) -> Option<ResponseView> {
    match reply {
        Some(response) => Some(response@),
        None => None,
    }
}

/// Bytes to write, taken as a sequence.
pub open spec fn bytes_view(bytes: Option<Vec<u8>>) -> Option<Seq<u8>> {
    match bytes {
        Some(bytes) => Some(bytes@),
        None => None,
    }
}

/// Decides what to reply to the payload of a frame.
pub fn reply_to(frame: &[u8]) -> (reply: Option<Response>)
    ensures
        reply_view(reply) == spec_reply(frame@),
        reply matches Some(response) ==> response@.encodable(),
{
    match RequestHeader::parse(frame) {
        Ok(header) => Some(respond(&header)),
        Err(_) => match RequestHeader::peek_correlation_id(frame) {
            Some(correlation_id) => Some(
                Response::Error { correlation_id, error_code: ErrorCode::CorruptMessage },
            ),
            None => None,
        },
    }
}

/// Parses the payload of a frame, negotiates, and returns the framed
/// response, ready to be written.
pub fn handle_frame(frame: &[u8]) -> (bytes: Option<Vec<u8>>)
    ensures
        bytes_view(bytes) == spec_handle_frame(frame@),
{
    match reply_to(frame) {
        Some(response) => {
            let body = response.encode();
            Some(frame_message(body.as_slice()))
        },
        None => None,
    }
}

/// Where a connection stands between two steps.
#[derive(Clone, Copy, Debug, PartialEq, Eq, Structural)]
pub enum ConnectionState {
    /// Accepted, nothing read yet.
    Idle,
    /// Reading a frame: waiting for the four bytes of its length.
    ReadingLength,
    /// Reading a frame: waiting for the `len` bytes of its payload.
    ReadingPayload { len: usize },
    /// Waiting for the response to be written.
    Writing,
    /// Done. Nothing more is read or written.
    Closed,
}

/// What the driver reports.
#[derive(Clone, Debug, PartialEq, Eq)]
pub enum Event {
    /// The connection was accepted.
    Opened,
    /// The bytes asked for were read.
    Data(Vec<u8>),
    /// The stream ended before the bytes asked for had arrived.
    Eof,
    /// The bytes handed over were written.
    Written,
    /// A read or a write failed.
    Failed,
}

/// What an [`Event`] stands for.
pub enum EventView {
    Opened,
    Data(Seq<u8>),
    Eof,
    Written,
    Failed,
}

impl View for Event {
    type V = EventView;

    open spec fn view(&self) -> EventView {
        match self {
            Event::Opened => EventView::Opened,
            Event::Data(bytes) => EventView::Data(bytes@),
            Event::Eof => EventView::Eof,
            Event::Written => EventView::Written,
            Event::Failed => EventView::Failed,
        }
    }
}

/// What the driver is to do next.
#[derive(Clone, Debug, PartialEq, Eq)]
pub enum Action {
    /// Read exactly `len` bytes and report them.
    Read { len: usize },
    /// Write all of `bytes`, flush, and report.
    Write { bytes: Vec<u8> },
    /// Close the connection. `error` tells why, for the local log only;
    /// `None` is an orderly end.
    Close { error: Option<KafkaError> },
}

/// What an [`Action`] stands for.
pub enum ActionView {
    Read { len: usize },
    Write { bytes: Seq<u8> },
    Close { error: Option<KafkaError> },
}

impl View for Action {
    type V = ActionView;

    open spec fn view(&self) -> ActionView {
        match self {
            Action::Read { len } => ActionView::Read { len: *len },
            Action::Write { bytes } => ActionView::Write { bytes: bytes@ },
            Action::Close { error } => ActionView::Close { error: *error },
        }
    }
}

/// The step of a connection: the state that follows `state` on `event`, and
/// the action that goes with it.
///
/// A connection with `keep_alive` serves request after request until the
/// peer closes; one without is closed once its first response is written.
/// A refused request is answered and does not end the connection. A failed
/// read or write, a refused length, a payload cut short and a header without
/// a correlation id do. An event that the state does not wait for ends it
/// too.
pub open spec fn spec_step(
    keep_alive: bool,
    max_frame_len: i32,
    state: ConnectionState,
    event: EventView,
) -> (ConnectionState, ActionView) {
    match (state, event) {
        (ConnectionState::Closed, _) => (
            ConnectionState::Closed,
            ActionView::Close { error: None },
        ),
        (_, EventView::Failed) => (
            ConnectionState::Closed,
            ActionView::Close { error: Some(KafkaError::Transport) },
        ),
        (ConnectionState::Idle, EventView::Opened) => (
            ConnectionState::ReadingLength,
            ActionView::Read { len: LENGTH_PREFIX_LEN },
        ),
        (ConnectionState::ReadingLength, EventView::Data(prefix)) => match spec_frame_length(
            prefix,
            max_frame_len,
        ) {
            Ok(len) => (ConnectionState::ReadingPayload { len }, ActionView::Read { len }),
            Err(e) => (ConnectionState::Closed, ActionView::Close { error: Some(e) }),
        },
        (ConnectionState::ReadingLength, EventView::Eof) => (
            ConnectionState::Closed,
            ActionView::Close { error: None },
        ),
        (ConnectionState::ReadingPayload { len }, EventView::Data(payload)) => if payload.len()
            < len {
            (ConnectionState::Closed, ActionView::Close { error: Some(KafkaError::Truncated) })
        } else {
            match spec_handle_frame(payload.take(len as int)) {
                Some(bytes) => (ConnectionState::Writing, ActionView::Write { bytes }),
                None => (
                    ConnectionState::Closed,
                    ActionView::Close { error: Some(KafkaError::Truncated) },
                ),
            }
        },
        (ConnectionState::ReadingPayload { .. }, EventView::Eof) => (
            ConnectionState::Closed,
            ActionView::Close { error: Some(KafkaError::Truncated) },
        ),
        (ConnectionState::Writing, EventView::Written) => if keep_alive {
            (ConnectionState::ReadingLength, ActionView::Read { len: LENGTH_PREFIX_LEN })
        } else {
            (ConnectionState::Closed, ActionView::Close { error: None })
        },
        _ => (ConnectionState::Closed, ActionView::Close { error: None }),
    }
}

/// The handler of one connection. It owns no socket: see [`Connection::step`].
#[derive(Clone, Copy, Debug)]
pub struct Connection {
    state: ConnectionState,
    keep_alive: bool,
    max_frame_len: i32,
}

impl Connection {
    /// Where the connection stands.
    pub closed spec fn spec_state(self) -> ConnectionState {
        self.state
    }

    /// Whether the connection serves more than one request.
    pub closed spec fn spec_keep_alive(self) -> bool {
        self.keep_alive
    }

    /// The largest payload that the connection accepts.
    pub closed spec fn spec_max_frame_len(self) -> i32 {
        self.max_frame_len
    }

    /// A connection that has just been accepted.
    pub fn new(keep_alive: bool, max_frame_len: i32) -> (connection: Connection)
        ensures
            connection.spec_state() == ConnectionState::Idle,
            connection.spec_keep_alive() == keep_alive,
            connection.spec_max_frame_len() == max_frame_len,
    {
        Connection { state: ConnectionState::Idle, keep_alive, max_frame_len }
    }

    /// Where the connection stands.
    pub fn state(&self) -> (state: ConnectionState)
        ensures
            state == self.spec_state(),
    {
        self.state
    }

    /// Whether the connection is done.
    pub fn is_closed(&self) -> (closed: bool)
        ensures
            closed == (self.spec_state() == ConnectionState::Closed),
    {
        match self.state {
            ConnectionState::Closed => true,
            _ => false,
        }
    }

    /// Takes the result of the last action and decides on the next one.
    pub fn step(&mut self, event: Event) -> (action: Action)
        ensures
            final(self).spec_keep_alive() == old(self).spec_keep_alive(),
            final(self).spec_max_frame_len() == old(self).spec_max_frame_len(),
            (final(self).spec_state(), action@) == spec_step(
                old(self).spec_keep_alive(),
                old(self).spec_max_frame_len(),
                old(self).spec_state(),
                event@,
            ),
    {
        let (next, action) = match (self.state, event) {
            (ConnectionState::Closed, _) => (ConnectionState::Closed, Action::Close { error: None }),
            (_, Event::Failed) => (
                ConnectionState::Closed,
                Action::Close { error: Some(KafkaError::Transport) },
            ),
            (ConnectionState::Idle, Event::Opened) => (
                ConnectionState::ReadingLength,
                Action::Read { len: LENGTH_PREFIX_LEN },
            ),
            (ConnectionState::ReadingLength, Event::Data(prefix)) => match frame_length(
                prefix.as_slice(),
                self.max_frame_len,
            ) {
                Ok(len) => (ConnectionState::ReadingPayload { len }, Action::Read { len }),
                Err(e) => (ConnectionState::Closed, Action::Close { error: Some(e) }),
            },
            (ConnectionState::ReadingLength, Event::Eof) => (
                ConnectionState::Closed,
                Action::Close { error: None },
            ),
            (ConnectionState::ReadingPayload { len }, Event::Data(payload)) => {
                if payload.len() < len {
                    (ConnectionState::Closed, Action::Close { error: Some(KafkaError::Truncated) })
                } else {
                    let frame = slice_subrange(payload.as_slice(), 0, len);
                    match handle_frame(frame) {
                        Some(bytes) => (ConnectionState::Writing, Action::Write { bytes }),
                        None => (
                            ConnectionState::Closed,
                            Action::Close { error: Some(KafkaError::Truncated) },
                        ),
                    }
                }
            },
            (ConnectionState::ReadingPayload { .. }, Event::Eof) => (
                ConnectionState::Closed,
                Action::Close { error: Some(KafkaError::Truncated) },
            ),
            (ConnectionState::Writing, Event::Written) => {
                if self.keep_alive {
                    (ConnectionState::ReadingLength, Action::Read { len: LENGTH_PREFIX_LEN })
                } else {
                    (ConnectionState::Closed, Action::Close { error: None })
                }
            },
            _ => (ConnectionState::Closed, Action::Close { error: None }),
        };
        self.state = next;
        action
    }
}

} // verus!
