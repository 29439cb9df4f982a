//! A device that is told by Astarte, time and again, which remote host to connect with.

use tungstenite::Error as TungError;
use vstd::prelude::*;

use crate::astarte;
use crate::connection::ConnectionError;
use crate::connections;
use crate::connections::{ConnectionsHandler, Turn, WebSocketOperation};
use crate::proto_message::ProtoError;
use crate::web_url::Url;

verus! {

/// What goes wrong with a device.
#[non_exhaustive]
#[derive(Debug)]
pub enum DeviceError {
    /// The WebSocket connection could not be opened.
    WebSocketConnect(TungError),
    /// A connection failed.
    Connection(ConnectionError),
    /// A message could not be written or read.
    Protobuf(ProtoError),
    /// The values from Astarte cannot be used.
    Astarte(astarte::Error),
}

/// The handler of the connection with a remote host, given what came of opening it.
pub fn opened<H, S>(url: Url, stream: Result<S, TungError>) -> (r: Result<
    ConnectionsHandler<H, S>,
    DeviceError,
>)
    ensures
        match stream {
            Ok(stream) => r matches Ok(handler) && handler.connections().len() == 0
                && handler.ws_stream() == stream && handler.url() == url@,
            Err(err) => r == Err::<ConnectionsHandler<H, S>, DeviceError>(
                DeviceError::WebSocketConnect(err),
            ),
        },
{
    match stream {
        Ok(stream) => Ok(ConnectionsHandler::over(url, stream)),
        Err(err) => Err(DeviceError::WebSocketConnect(err)),
    }
}

/// An error of the connection with a remote host, as an error of the device. There is a connection.
fn into_error(err: connections::Error) -> (r: DeviceError)
    requires
        !(err is NonExistingConnection),
    ensures
        match err {
            connections::Error::WebSocketConnect(e) => r == DeviceError::WebSocketConnect(e),
            connections::Error::Connection(e) => r == DeviceError::Connection(e),
            connections::Error::Protobuf(e) => r == DeviceError::Protobuf(e),
            connections::Error::NonExistingConnection => false,
        },
{
    match err {
        connections::Error::WebSocketConnect(err) => DeviceError::WebSocketConnect(err),
        connections::Error::Connection(err) => DeviceError::Connection(err),
        connections::Error::Protobuf(err) => DeviceError::Protobuf(err),
        connections::Error::NonExistingConnection => vstd::pervasive::unreached(),
    }
}

/// One turn of the connection with a remote host, on what happened on it.
pub fn handle_connections<H, S>(
    handler: &mut ConnectionsHandler<H, S>,
    op: WebSocketOperation,
) -> (r: Result<Turn<H>, DeviceError>)
    requires
        connections::can_turn(op),
    ensures
        r matches Ok(turn) && connections::takes_turn(
            op,
            old(handler).connections(),
            final(handler).connections(),
            turn,
        ),
        final(handler).ws_stream() == old(handler).ws_stream(),
        final(handler).url() == old(handler).url(),
{
    match handler.handle_connections(op) {
        Ok(turn) => Ok(turn),
        Err(err) => Err(into_error(err)),
    }
}

/// Whether the device goes on, given what came of carrying a turn out: the connection with the
/// remote host could not be opened again, or it ended, or it goes on.
pub fn carried_out(goes_on: Result<bool, ConnectionError>) -> (r: Result<bool, DeviceError>)
    ensures
        match goes_on {
            Ok(goes_on) => r matches Ok(g) && g == goes_on,
            Err(err) => r matches Err(DeviceError::Connection(e)) && e == err,
        },
{
    match goes_on {
        Ok(goes_on) => Ok(goes_on),
        Err(err) => Err(DeviceError::Connection(err)),
    }
}

/// How the device ends, given how the task ended that listens to Astarte: with the error of that
/// task. A task that could not be waited for, for the reason `J`, is no error of the device.
pub fn finish<J>(joined: Result<Result<(), DeviceError>, J>) -> (r: Result<(), DeviceError>)
    ensures
        match joined {
            Ok(ended) => r == ended,
            Err(_) => r is Ok,
        },
{
    match joined {
        Ok(ended) => ended,
        Err(_) => Ok(()),
    }
}

} // verus!
