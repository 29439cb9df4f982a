//! The device: whether it is connected with the remote host, and how it becomes so.

use tungstenite::Error as TungError;
use vstd::prelude::*;

use crate::astarte;
use crate::astarte::ConnectionInfo;
use crate::connection::ConnectionError;
use crate::connections;
use crate::connections::{ConnectionsHandler, Turn, WebSocketOperation};
use crate::proto_message::ProtoError;
use crate::web_url;
use crate::web_url::{Url, UrlModel};

verus! {

/// What goes wrong with the device.
#[non_exhaustive]
#[derive(Debug)]
pub enum Error {
    /// The WebSocket connection could not be opened.
    WebSocketConnect(TungError),
    /// There is no connection.
    NonExistingConnection,
    /// A connection failed.
    Connection(ConnectionError),
    /// A message could not be written or read.
    Protobuf(ProtoError),
    /// What Astarte sent makes no URL.
    Astarte(astarte::Error),
}

/// Whether the device is connected with the remote host, and where that is.
#[derive(Debug)]
pub enum ForwarderState {
    Waiting,
    Connected(Url),
}

impl View for ForwarderState {
    type V = Option<UrlModel>;

    open spec fn view(&self) -> Option<UrlModel> {
        match self {
            ForwarderState::Waiting => None,
            ForwarderState::Connected(url) => Some(url@),
        }
    }
}

impl Default for ForwarderState {
    fn default() -> (r: Self)
        ensures
            r@ is None,
    {
        ForwarderState::Waiting
    }
}

/// The device. `H` is what its caller holds of a connection with a terminal, `S` the stream with
/// the remote host.
#[derive(Debug)]
pub struct Forwarder<H, S> {
    state: ForwarderState,
    connections: Option<ConnectionsHandler<H, S>>,
}

impl<H, S> Default for Forwarder<H, S> {
    /// A device that is not connected.
    fn default() -> (r: Self)
        ensures
            r.state() is None,
            r.handler() is None,
            r.wf(),
    {
        Forwarder { state: ForwarderState::default(), connections: None }
    }
}

/// What came of opening a connection, as an error of the device.
fn into_error(err: connections::Error) -> (r: Error)
    ensures
        match err {
            connections::Error::WebSocketConnect(e) => r == Error::WebSocketConnect(e),
            connections::Error::NonExistingConnection => r == Error::NonExistingConnection,
            connections::Error::Connection(e) => r == Error::Connection(e),
            connections::Error::Protobuf(e) => r == Error::Protobuf(e),
        },
{
    match err {
        connections::Error::WebSocketConnect(err) => Error::WebSocketConnect(err),
        connections::Error::NonExistingConnection => Error::NonExistingConnection,
        connections::Error::Connection(err) => Error::Connection(err),
        connections::Error::Protobuf(err) => Error::Protobuf(err),
    }
}

impl<H, S> Forwarder<H, S> {
    /// Where the remote host is that the device is connected with.
    pub closed spec fn state(self) -> Option<UrlModel> {
        self.state@
    }

    /// The connection with the remote host.
    pub closed spec fn handler(self) -> Option<ConnectionsHandler<H, S>> {
        self.connections
    }

    /// A device that is connected has a connection, and that is with the host that the state names.
    pub open spec fn wf(self) -> bool {
        self.state() matches Some(url) ==> self.handler() matches Some(handler) && handler.url()
            == url
    }

    /// Whether the device is still connected after a turn: not once the stream has ended. The
    /// connection itself stays until another one takes its place.
    pub open spec fn state_after(self, r: Result<Turn<H>, Error>) -> Option<UrlModel> {
        if r matches Ok(turn) && turn is Stop {
            None
        } else {
            self.state()
        }
    }

    /// Whether the device is connected with the remote host.
    pub fn is_connected(&self) -> (r: bool)
        ensures
            r == (self.state() is Some),
    {
        match self.state {
            ForwarderState::Connected(_) => true,
            _ => false,
        }
    }

    /// Where to open a connection with the remote host. `None` where the device is connected
    /// already.
    pub fn connect(&self, cinfo: ConnectionInfo) -> (r: Result<Option<Url>, Error>)
        ensures
            if self.state() is Some {
                r matches Ok(None)
            } else {
                match web_url::parsed_url(cinfo@.url_text()) {
                    Some((text, query)) => r matches Ok(Some(url)) && url@ == (UrlModel {
                        text,
                        query,
                    }),
                    None => r matches Err(Error::Astarte(astarte::Error::Parse(_))),
                }
            },
    {
        if self.is_connected() {
            return Ok(None);
        }
        match Url::try_from(cinfo) {
            Ok(url) => Ok(Some(url)),
            Err(err) => Err(Error::Astarte(err)),
        }
    }

    fn set_connections(&mut self, handler: ConnectionsHandler<H, S>)
        ensures
            final(self).wf(),
            final(self).state() == Some(handler.url()),
            final(self).handler() == Some(handler),
    {
        self.state = ForwarderState::Connected(handler.get_url().clone());
        self.connections = Some(handler);
    }

    /// Takes the connection with the remote host, given what came of opening it. A connection that
    /// could not be opened changes nothing.
    pub fn connected(&mut self, url: Url, opened: Result<S, TungError>) -> (r: Result<
        (),
        Error,
    >)
        ensures
            match opened {
                Ok(stream) => {
                    &&& r is Ok
                    &&& final(self).wf()
                    &&& final(self).state() == Some(url@)
                    &&& final(self).handler() matches Some(handler)
                    &&& handler.connections().len() == 0
                    &&& handler.ws_stream() == stream
                },
                Err(err) => {
                    &&& r == Err::<(), Error>(Error::WebSocketConnect(err))
                    &&& *final(self) == *old(self)
                },
            },
    {
        match ConnectionsHandler::connect(url, opened) {
            Ok(handler) => {
                self.set_connections(handler);
                Ok(())
            },
            Err(err) => Err(into_error(err)),
        }
    }

    /// The connection with the remote host.
    pub fn connections_mut(&mut self) -> (r: Result<&mut ConnectionsHandler<H, S>, Error>)
        ensures
            final(self).state() == old(self).state(),
            match r {
                Ok(handler) => {
                    &&& old(self).handler() == Some(*handler)
                    &&& final(self).handler() == Some(*final(handler))
                },
                Err(err) => {
                    &&& old(self).handler() is None
                    &&& final(self).handler() is None
                    &&& err is NonExistingConnection
                },
            },
    {
        match &mut self.connections {
            Some(handler) => Ok(handler),
            None => Err(Error::NonExistingConnection),
        }
    }

    /// One turn of the connection with the remote host, on what happened on it. With the end of the
    /// stream the device is no longer connected.
    pub fn handle_connections(&mut self, op: WebSocketOperation) -> (r: Result<Turn<H>, Error>)
        requires
            connections::can_turn(op),
        ensures
            final(self).state() == old(self).state_after(r),
            old(self).wf() ==> final(self).wf(),
            match old(self).handler() {
                None => r matches Err(Error::NonExistingConnection) && final(self).handler()
                    is None,
                Some(before) => {
                    &&& final(self).handler() matches Some(after)
                    &&& after.url() == before.url()
                    &&& after.ws_stream() == before.ws_stream()
                    &&& r matches Ok(turn)
                    &&& connections::takes_turn(op, before.connections(), after.connections(), turn)
                },
            },
    {
        match &mut self.connections {
            Some(handler) => match handler.handle_connections(op) {
                Ok(turn) => {
                    if let Turn::Stop = turn {
                        self.state = ForwarderState::Waiting;
                    }
                    Ok(turn)
                },
                Err(err) => Err(into_error(err)),
            },
            None => Err(Error::NonExistingConnection),
        }
    }

    /// One turn of the connection with the remote host. `None`, with nothing changed, where what
    /// happened on it cannot be handled.
    pub fn handle_connections_checked(&mut self, op: WebSocketOperation) -> (r: Option<
        Result<Turn<H>, Error>,
    >)
        ensures
            old(self).wf() ==> final(self).wf(),
            r is Some == connections::can_turn(op),
            match r {
                Some(r) => final(self).state() == old(self).state_after(r),
                None => *final(self) == *old(self),
            },
            match (r, old(self).handler()) {
                (None, _) => true,
                (Some(r), None) => r matches Err(Error::NonExistingConnection) && final(
                    self).handler() is None,
                (Some(r), Some(before)) => {
                    &&& final(self).handler() matches Some(after)
                    &&& after.url() == before.url()
                    &&& after.ws_stream() == before.ws_stream()
                    &&& r matches Ok(turn)
                    &&& connections::takes_turn(op, before.connections(), after.connections(), turn)
                },
            },
    {
        if connections::check_turn(&op) {
            Some(self.handle_connections(op))
        } else {
            None
        }
    }
}

/// A device whose stream has ended can connect again: its next `connect` gives a URL, as that of a
/// new device does.
pub proof fn law_ended_device_connects_again<H, S>(
    before: Forwarder<H, S>,
    r: Result<Turn<H>, Error>,
    after: Forwarder<H, S>,
)
    requires
        r matches Ok(Turn::Stop),
        after.state() == before.state_after(r),
    ensures
        after.state() is None,
        after.wf(),
{
}

/// A device stays connected with the host that it is connected with through every turn but the end
/// of the stream, errors included.
pub proof fn law_device_stays_connected<H, S>(
    before: Forwarder<H, S>,
    turn: Turn<H>,
    err: Error,
)
    ensures
        before.state_after(Err(err)) == before.state(),
        turn is Act || turn is Recover ==> before.state_after(Ok(turn)) == before.state(),
        turn is Stop ==> before.state_after(Ok(turn)) is None,
{
}

/// A device is connected with the host of its connection, or not at all.
pub proof fn law_connected_device_has_its_connection<H, S>(device: Forwarder<H, S>)
    requires
        device.wf(),
    ensures
        device.handler() is None ==> device.state() is None,
        device.state() is Some ==> device.state() == Some(device.handler()->0.url()),
{
}

} // verus!
