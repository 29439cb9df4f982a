//! One WebSocket connection between the device and a terminal: what is waited for, what becomes of
//! what arrives, and when the connection ends.
//!
//! The connection decides; the messages themselves are moved by its caller.

use reqwest::Error as ReqwestError;
use tungstenite::Error as TungError;
use vstd::prelude::*;

use crate::conn_state::ConnState;
use crate::proto_message;
use crate::proto_message::{
    ProtoError, ProtoMessage, Protocol, ProtocolModel, WebSocket, WebSocketMessage,
    WebSocketMessageModel, WebSocketModel,
};
use crate::tung_message::{TungMessage, TungMessageModel};

verus! {

/// What goes wrong with a connection.
#[non_exhaustive]
#[derive(Debug)]
pub enum ConnectionError {
    /// A message could not be sent over a WebSocket connection.
    WebSocketSend(TungError),
    /// A message could not be received over a WebSocket connection.
    WebSocketNext(TungError),
    /// A message could not be written or read.
    Protobuf(ProtoError),
    /// A message could not be handed to the connection with the remote host, and is given back.
    ChannelToWs(ProtoMessage),
    /// A message could not be handed to the connection with the terminal, and is given back.
    ChannelToTtyd(WebSocketMessage),
    /// An HTTP request failed.
    Reqwest(ReqwestError),
    /// The WebSocket connection could not be opened again.
    Reconnect(TungError),
}

/// What a connection can wait for.
#[derive(Clone, Copy, Debug, PartialEq, Eq, Structural)]
pub enum Wait {
    /// For the terminal or for the remote host, whichever comes first.
    Both,
    /// For the terminal.
    Stream,
    /// For the remote host.
    Channel,
}

impl Wait {
    pub open spec fn on_stream(self) -> bool {
        self is Both || self is Stream
    }

    pub open spec fn on_channel(self) -> bool {
        self is Both || self is Channel
    }
}

/// What arrived: a message read from the terminal, or one to write to it. There is none to write
/// once the channel to the connection is dropped.
#[derive(Debug)]
pub enum Either {
    Read(TungMessage),
    Write(Option<WebSocketMessage>),
}

/// What is to be done next for a connection.
#[derive(Debug)]
pub enum Step {
    /// Hand the message to the connection with the remote host.
    Forward(ProtoMessage),
    /// Send the message to the terminal.
    Write(TungMessage),
    /// Report the error, and go on.
    Report(ConnectionError),
    /// Go on.
    Continue,
    /// End.
    Done,
}

/// What a connection holds.
pub struct ConnectionModel {
    pub id: Seq<u8>,
    pub state: ConnState,
}

/// A connection with a terminal.
#[derive(Debug)]
pub struct Connection {
    id: Vec<u8>,
    state: ConnState,
}

impl View for Connection {
    type V = ConnectionModel;

    closed spec fn view(&self) -> ConnectionModel {
        ConnectionModel { id: self.id@, state: self.state }
    }
}

/// The state of a connection that has read a message: a close frame is the last one.
pub open spec fn state_after_read(state: ConnState, data: TungMessageModel) -> ConnState {
    if data is Close {
        state.read_shut()
    } else {
        state
    }
}

/// The state of a connection that was given a message to write, or none for the last time.
pub open spec fn state_after_write(state: ConnState, data: Option<WebSocketMessage>) -> ConnState {
    match data {
        Some(_) => state,
        None => state.write_shut(),
    }
}

/// The message for the remote host that carries what was read from the terminal. It names no
/// connection.
pub open spec fn message_read(data: TungMessageModel) -> Option<ProtocolModel> {
    match proto_message::content_of(data) {
        Some(message) => Some(
            ProtocolModel::WebSocket(WebSocketModel { socket_id: Seq::empty(), message }),
        ),
        None => None,
    }
}

impl Connection {
    /// A connection that is open in both directions.
    pub fn new(id: Vec<u8>) -> (r: Self)
        ensures
            r@ == (ConnectionModel { id: id@, state: ConnState::ReadWrite }),
    {
        Self { id, state: ConnState::default() }
    }

    /// The state of the connection.
    pub fn state(&self) -> (r: ConnState)
        ensures
            r == self@.state,
    {
        self.state
    }

    /// The ID of the connection.
    pub fn id(&self) -> (r: &Vec<u8>)
        ensures
            r@ == self@.id,
    {
        &self.id
    }

    /// What to wait for: the terminal while the connection is open for reading, the remote host
    /// while it is open for writing, and nothing once it is closed.
    pub fn select(&self) -> (r: Option<Wait>)
        ensures
            match r {
                Some(wait) => {
                    &&& wait.on_stream() == self@.state.reads()
                    &&& wait.on_channel() == self@.state.writes()
                },
                None => self@.state is Closed,
            },
    {
        match self.state {
            ConnState::ReadWrite => Some(Wait::Both),
            ConnState::Read => Some(Wait::Stream),
            ConnState::Write => Some(Wait::Channel),
            ConnState::Closed => None,
        }
    }

    /// What the next item of the stream with the terminal means. The end of the stream ends the
    /// connection.
    pub fn stream_next(item: Option<Result<TungMessage, TungError>>) -> (r: Option<
        Result<Either, ConnectionError>,
    >)
        ensures
            match item {
                Some(Ok(msg)) => r matches Some(Ok(Either::Read(m))) && m == msg,
                Some(Err(err)) => r matches Some(Err(ConnectionError::WebSocketNext(e))) && e
                    == err,
                None => r is None,
            },
    {
        match item {
            Some(Ok(tung_msg)) => Some(Ok(Either::Read(tung_msg))),
            Some(Err(err)) => Some(Err(ConnectionError::WebSocketNext(err))),
            None => None,
        }
    }

    /// What the next item of the channel from the remote host means.
    pub fn channel_recv(item: Option<WebSocketMessage>) -> (r: Option<
        Result<Either, ConnectionError>,
    >)
        ensures
            r matches Some(Ok(Either::Write(data))) && data == item,
    {
        Some(Ok(Either::Write(item)))
    }

    /// Takes a message read from the terminal, and gives the message for the remote host. A close
    /// frame ends the reading.
    pub fn handle_ws_read(&mut self, data: TungMessage) -> (r: Result<
        ProtoMessage,
        ConnectionError,
    >)
        ensures
            final(self)@ == (ConnectionModel {
                id: old(self)@.id,
                state: state_after_read(old(self)@.state, data@),
            }),
            match r {
                Ok(msg) => message_read(data@) == Some(msg@),
                Err(err) => message_read(data@) is None && err matches ConnectionError::Protobuf(
                    ProtoError::WrongWsFrame,
                ),
            },
    {
        if data.is_close() {
            self.state.shutdown_read();
        }
        match ProtoMessage::try_from(data) {
            Ok(msg) => Ok(msg),
            Err(err) => Err(ConnectionError::Protobuf(err)),
        }
    }

    /// Takes a message for the terminal, and gives it as it is sent. Where the channel was dropped
    /// there is nothing to send, and the writing ends.
    pub fn handle_ws_write(&mut self, data: Option<WebSocketMessage>) -> (r: Option<TungMessage>)
        ensures
            final(self)@ == (ConnectionModel {
                id: old(self)@.id,
                state: state_after_write(old(self)@.state, data),
            }),
            match data {
                Some(data) => r matches Some(msg) && msg@ == proto_message::frame_of(data@),
                None => r is None,
            },
    {
        match data {
            None => {
                self.state.shutdown_write();
                None
            },
            Some(data) => Some(TungMessage::from(data)),
        }
    }

    /// One turn of the connection, on what arrived while it waited. An error other than that of a
    /// message that cannot be forwarded is reported and changes nothing.
    pub fn task_step(&mut self, res: Option<Result<Either, ConnectionError>>) -> (r: Result<
        Step,
        ConnectionError,
    >)
        ensures
            final(self)@ == (ConnectionModel {
                id: old(self)@.id,
                state: match res {
                    Some(Ok(Either::Read(data))) => state_after_read(old(self)@.state, data@),
                    Some(Ok(Either::Write(data))) => state_after_write(old(self)@.state, data),
                    _ => old(self)@.state,
                },
            }),
            match res {
                Some(Ok(Either::Read(data))) => match message_read(data@) {
                    Some(msg) => r matches Ok(Step::Forward(m)) && m@ == msg,
                    None => r matches Err(ConnectionError::Protobuf(ProtoError::WrongWsFrame)),
                },
                Some(Ok(Either::Write(Some(data)))) => r matches Ok(Step::Write(msg)) && msg@
                    == proto_message::frame_of(data@),
                Some(Ok(Either::Write(None))) => r matches Ok(Step::Continue),
                Some(Err(err)) => r matches Ok(Step::Report(e)) && e == err,
                None => r matches Ok(Step::Done),
            },
    {
        match res {
            Some(Ok(Either::Read(data))) => match self.handle_ws_read(data) {
                Ok(msg) => Ok(Step::Forward(msg)),
                Err(err) => Err(err),
            },
            Some(Ok(Either::Write(opt))) => match self.handle_ws_write(opt) {
                Some(msg) => Ok(Step::Write(msg)),
                None => Ok(Step::Continue),
            },
            Some(Err(err)) => Ok(Step::Report(err)),
            None => Ok(Step::Done),
        }
    }

    /// The message that tells the remote host that the connection ended with an error.
    pub fn close_message(self) -> (r: ProtoMessage)
        ensures
            r@ == ProtocolModel::WebSocket(
                WebSocketModel {
                    socket_id: self@.id,
                    message: WebSocketMessageModel::Close {
                        code: proto_message::CLOSE_NORMAL,
                        reason: None,
                    },
                },
            ),
    {
        ProtoMessage::new(Protocol::WebSocket(WebSocket::close(self.id, None)))
    }

    /// What comes of the connection, given how it ended: its result, and a message for the remote
    /// host where that is an error.
    pub fn ended(self, res: Result<(), ConnectionError>) -> (r: (
        Result<(), ConnectionError>,
        Option<ProtoMessage>,
    ))
        ensures
            r.0 == res,
            match res {
                Ok(_) => r.1 is None,
                Err(_) => r.1 matches Some(msg) && msg@ == ProtocolModel::WebSocket(
                    WebSocketModel {
                        socket_id: self@.id,
                        message: WebSocketMessageModel::Close {
                            code: proto_message::CLOSE_NORMAL,
                            reason: None,
                        },
                    },
                ),
            },
    {
        let msg = match &res {
            Ok(_) => None,
            Err(_) => Some(self.close_message()),
        };
        (res, msg)
    }
}

/// What came of handing a message to the connection with the remote host.
pub fn sent_to_ws(sent: Result<(), ProtoMessage>) -> (r: Result<(), ConnectionError>)
    ensures
        match sent {
            Ok(()) => r is Ok,
            Err(msg) => r matches Err(ConnectionError::ChannelToWs(m)) && m == msg,
        },
{
    match sent {
        Ok(()) => Ok(()),
        Err(msg) => Err(ConnectionError::ChannelToWs(msg)),
    }
}

/// What came of handing a message to the connection with the terminal.
pub fn sent_to_ttyd(sent: Result<(), WebSocketMessage>) -> (r: Result<(), ConnectionError>)
    ensures
        match sent {
            Ok(()) => r is Ok,
            Err(msg) => r matches Err(ConnectionError::ChannelToTtyd(m)) && m == msg,
        },
{
    match sent {
        Ok(()) => Ok(()),
        Err(msg) => Err(ConnectionError::ChannelToTtyd(msg)),
    }
}

/// What came of sending a message over a WebSocket connection.
pub fn sent_to_stream(sent: Result<(), TungError>) -> (r: Result<(), ConnectionError>)
    ensures
        match sent {
            Ok(()) => r is Ok,
            Err(err) => r matches Err(ConnectionError::WebSocketSend(e)) && e == err,
        },
{
    match sent {
        Ok(()) => Ok(()),
        Err(err) => Err(ConnectionError::WebSocketSend(err)),
    }
}

/// What is read and written never opens a direction that has ended, and a connection that was told
/// of both ends is closed.
pub proof fn law_directions_never_open_again(
    state: ConnState,
    data: TungMessageModel,
    written: Option<WebSocketMessage>,
)
    ensures
        state_after_read(state, data).reads() == (state.reads() && !(data is Close)),
        state_after_read(state, data).writes() == state.writes(),
        state_after_write(state, written).writes() == (state.writes() && written is Some),
        state_after_write(state, written).reads() == state.reads(),
        data is Close && written is None ==> state_after_write(
            state_after_read(state, data),
            written,
        ) is Closed,
{
}

/// What the remote host sends to a terminal that echoes it comes back as it was sent, but for a
/// closure without a reason, which comes back with an empty one.
pub proof fn law_echo(msg: WebSocketMessageModel)
    ensures
        message_read(proto_message::frame_of(msg)) == Some(
            ProtocolModel::WebSocket(
                WebSocketModel {
                    socket_id: Seq::empty(),
                    message: match msg {
                        WebSocketMessageModel::Close { code, reason: None } => {
                            WebSocketMessageModel::Close { code, reason: Some(Seq::empty()) }
                        },
                        other => other,
                    },
                },
            ),
        ),
{
}

/// What was read from the terminal goes to the remote host as its kind, with its data, and names no
/// connection. A raw frame does not go on.
pub proof fn law_message_read_keeps_its_kind(
    text: Seq<char>,
    data: Seq<u8>,
    code: u16,
    reason: Seq<char>,
)
    ensures
        ({
            let carries = |read: TungMessageModel, content: WebSocketMessageModel|
                message_read(read) == Some(
                    ProtocolModel::WebSocket(
                        WebSocketModel { socket_id: Seq::empty(), message: content },
                    ),
                );
            &&& carries(TungMessageModel::Text(text), WebSocketMessageModel::Text(text))
            &&& carries(TungMessageModel::Binary(data), WebSocketMessageModel::Binary(data))
            &&& carries(TungMessageModel::Ping(data), WebSocketMessageModel::Ping(data))
            &&& carries(TungMessageModel::Pong(data), WebSocketMessageModel::Pong(data))
            &&& carries(
                TungMessageModel::Close(Some((code, reason))),
                WebSocketMessageModel::Close { code, reason: Some(reason) },
            )
            &&& carries(
                TungMessageModel::Close(None),
                WebSocketMessageModel::Close { code: 1000, reason: None },
            )
            &&& message_read(TungMessageModel::Frame) is None
        }),
{
}

/// A close frame ends the reading and nothing else, a dropped channel the writing and nothing else,
/// and every other message leaves the connection as open as it was.
pub proof fn law_states_of_a_connection(
    state: ConnState,
    read: TungMessageModel,
    written: WebSocketMessage,
)
    ensures
        !(read is Close) ==> state_after_read(state, read) == state,
        read is Close ==> !state_after_read(state, read).reads() && state_after_read(
            state,
            read,
        ).writes() == state.writes(),
        state_after_write(state, Some(written)) == state,
        !state_after_write(state, None).writes(),
        state_after_write(state, None).reads() == state.reads(),
{
}

/// What is waited for.
pub proof fn law_waits(wait: Wait)
    ensures
        match wait {
            Wait::Both => wait.on_stream() && wait.on_channel(),
            Wait::Stream => wait.on_stream() && !wait.on_channel(),
            Wait::Channel => !wait.on_stream() && wait.on_channel(),
        },
{
}

} // verus!
