//! The connection with the remote host, and the connections with terminals that run through it.
//!
//! The handler decides what a message means; its caller moves the messages and opens the streams.
//! `H` is what the caller holds of a connection with a terminal, `S` the stream with the remote
//! host.

use reqwest::Error as ReqwestError;
use tungstenite::Error as TungError;
use vstd::prelude::*;

use crate::connection::ConnectionError;
use crate::header_map;
use crate::headers::Headers;
use crate::proto;
use crate::proto_message;
use crate::proto_message::{
    ClientRequest, Http, HttpModel, HttpRequestModel, HttpResponse, HttpResponseModel, Missing,
    ProtoError, ProtoMessage, Protocol, ProtocolModel, Received, UpgradeRequest, UpgradeResponse,
    WebSocketMessage, WebSocketMessageModel, WebSocketModel,
};
use crate::text;
use crate::tung_message::{TungMessage, TungMessageModel};
use crate::vec_map;
use crate::vec_map::VecMap;
use crate::web_url;
use crate::web_url::{Url, UrlModel};
use crate::wire;

verus! {

/// What goes wrong with the connection with the remote host.
#[derive(Debug)]
pub enum Error {
    /// The WebSocket connection could not be opened.
    WebSocketConnect(TungError),
    /// There is no connection.
    NonExistingConnection,
    /// A connection failed.
    Connection(ConnectionError),
    /// A message could not be written or read.
    Protobuf(ProtoError),
}

/// The connections with terminals, by ID. Their view is the list of IDs and connections.
#[derive(Debug)]
pub struct Connections<H> {
    connections: VecMap<Vec<u8>, H>,
}

impl<H> View for Connections<H> {
    type V = Seq<(Seq<u8>, H)>;

    closed spec fn view(&self) -> Seq<(Seq<u8>, H)> {
        self.connections@
    }
}

impl<H> Connections<H> {
    /// No connections.
    pub fn new() -> (r: Self)
        ensures
            r@ == Seq::<(Seq<u8>, H)>::empty(),
    {
        Self { connections: VecMap::new() }
    }

    /// Adds a connection, and hands back the one that it replaces.
    pub fn add_connection(&mut self, connection: H, id: Vec<u8>) -> (r: Option<H>)
        ensures
            final(self)@ == vec_map::inserted(old(self)@, id@, connection),
            r == vec_map::lookup(old(self)@, id@),
    {
        self.connections.insert(id, connection)
    }

    /// The connection with that ID. Every ID occurs once.
    pub fn get_connection(&self, id: &Vec<u8>) -> (r: Option<&H>)
        ensures
            match r {
                Some(connection) => vec_map::lookup(self@, id@) == Some(*connection),
                None => vec_map::lookup(self@, id@) is None,
            },
            vec_map::distinct_keys(self@),
    {
        proof {
            use_type_invariant(&self.connections);
        }
        self.connections.get(id)
    }

    /// Takes the connection with that ID out.
    pub fn remove_connection(&mut self, id: &Vec<u8>) -> (r: Option<H>)
        ensures
            final(self)@ == vec_map::removed(old(self)@, id@),
            r == vec_map::lookup(old(self)@, id@),
    {
        self.connections.remove(id)
    }

    /// Takes all connections out.
    pub fn clear(&mut self) -> (r: Vec<H>)
        ensures
            final(self)@ == Seq::<(Seq<u8>, H)>::empty(),
            r@ == old(self)@.map_values(|e: (Seq<u8>, H)| e.1),
    {
        self.connections.drain()
    }

    /// How many connections there are. Every ID occurs once.
    pub fn len(&self) -> (n: usize)
        ensures
            n == self@.len(),
            vec_map::distinct_keys(self@),
    {
        proof {
            use_type_invariant(&self.connections);
        }
        self.connections.len()
    }
}

/// What a message from the remote host asks for.
pub enum Demand {
    /// Nothing.
    Nothing,
    /// To be answered with the same data.
    Pong(Seq<u8>),
    /// To end all connections.
    AbortAll,
    /// To open a connection.
    Upgrade(HttpRequestModel),
    /// To perform a request.
    Request(HttpRequestModel),
    /// To end the connection with that ID.
    Close(Seq<u8>, WebSocketMessageModel),
    /// To pass a content on to the connection with that ID.
    Forward(Seq<u8>, WebSocketMessageModel),
}

/// What a message of one of the protocols asks for. A response asks for nothing.
pub open spec fn protocol_demand(protocol: ProtocolModel) -> Demand {
    match protocol {
        ProtocolModel::Http(HttpModel::Response(_)) => Demand::Nothing,
        ProtocolModel::Http(HttpModel::Request(req)) => if vec_map::has_key(
            req.headers,
            proto_message::upgrade_header(),
        ) {
            Demand::Upgrade(req)
        } else {
            Demand::Request(req)
        },
        ProtocolModel::WebSocket(ws) => if ws.message is Close {
            Demand::Close(ws.socket_id, ws.message)
        } else {
            Demand::Forward(ws.socket_id, ws.message)
        },
    }
}

/// What a message from the remote host asks for. `None` where it holds bytes that are no message.
pub open spec fn demand(msg: TungMessageModel) -> Option<Demand> {
    match msg {
        TungMessageModel::Ping(data) => Some(Demand::Pong(data)),
        TungMessageModel::Close(_) => Some(Demand::AbortAll),
        TungMessageModel::Binary(bytes) => match proto_message::received(bytes) {
            Received::Message(protocol) => Some(protocol_demand(protocol)),
            _ => None,
        },
        _ => Some(Demand::Nothing),
    }
}

/// The message can be handled: its bytes are not those of a message without a protocol.
pub open spec fn can_handle(msg: TungMessageModel) -> bool {
    msg matches TungMessageModel::Binary(bytes) ==> !(proto_message::received(bytes) is NoProtocol)
}

/// What is to be done for a message from the remote host.
#[derive(Debug)]
pub enum Action<H> {
    /// Nothing.
    Nothing,
    /// Send the message to the remote host.
    Send(TungMessage),
    /// Abort the connections.
    Abort(Vec<H>),
    /// Open a WebSocket connection, and add it under the ID of the request.
    Upgrade(Vec<u8>, UpgradeRequest),
    /// Perform the request, and report the response under its ID.
    Request(Vec<u8>, ClientRequest),
    /// Pass the content on to the connection, and wait for its end.
    Close(H, WebSocketMessage),
    /// Pass the content on to the connection with that ID.
    Forward(Vec<u8>, WebSocketMessage),
}

/// The outcome meets the demand, on the connections that there were.
pub open spec fn meets<H>(
    r: Result<Action<H>, ConnectionError>,
    demand: Demand,
    before: Seq<(Seq<u8>, H)>,
) -> bool {
    match demand {
        Demand::Nothing => r matches Ok(Action::Nothing),
        Demand::Pong(data) => r matches Ok(Action::Send(msg)) && msg@ == TungMessageModel::Pong(
            data,
        ),
        Demand::AbortAll => r matches Ok(Action::Abort(all)) && all@ == before.map_values(
            |e: (Seq<u8>, H)| e.1,
        ),
        Demand::Upgrade(req) => {
            let parsed = proto_message::request_uri_text(req.local_url());
            match r {
                Ok(Action::Upgrade(id, upgrade)) => req.upgrades(parsed, Ok((id, upgrade))),
                Err(ConnectionError::Protobuf(err)) => req.upgrades(parsed, Err(err)),
                _ => false,
            }
        },
        Demand::Request(req) => {
            let parsed = web_url::parsed_url(req.local_url());
            match r {
                Ok(Action::Request(id, request)) => req.sends(parsed, Ok((id, request))),
                Err(ConnectionError::Protobuf(err)) => req.sends(parsed, Err(err)),
                _ => false,
            }
        },
        Demand::Close(id, content) => match vec_map::lookup(before, id) {
            Some(connection) => r matches Ok(Action::Close(c, msg)) && c == connection && msg@
                == content,
            None => r matches Ok(Action::Nothing),
        },
        Demand::Forward(id, content) => if vec_map::has_key(before, id) {
            r matches Ok(Action::Forward(i, msg)) && i@ == id && msg@ == content
        } else {
            r matches Ok(Action::Nothing)
        },
    }
}

/// The connections that are left once a demand was met. Those that are to be opened are added
/// later.
pub open spec fn left<H>(demand: Demand, before: Seq<(Seq<u8>, H)>) -> Seq<(Seq<u8>, H)> {
    match demand {
        Demand::AbortAll => Seq::empty(),
        Demand::Close(id, _) => vec_map::removed(before, id),
        _ => before,
    }
}

/// The outcome of handling a message of one of the protocols, and the connections that are left.
pub open spec fn handles_protocol<H>(
    r: Result<Action<H>, ConnectionError>,
    protocol: ProtocolModel,
    before: Seq<(Seq<u8>, H)>,
    after: Seq<(Seq<u8>, H)>,
) -> bool {
    &&& meets(r, protocol_demand(protocol), before)
    &&& after == left(protocol_demand(protocol), before)
}

/// The error that bytes which are no message are answered with.
pub open spec fn refuses<H>(r: Result<Action<H>, ConnectionError>, received: Received) -> bool {
    match received {
        Received::Malformed => r matches Err(ConnectionError::Protobuf(ProtoError::Decode(_))),
        Received::Empty(missing) => r matches Err(ConnectionError::Protobuf(err))
            && proto_message::is_missing(err, missing),
        _ => false,
    }
}

/// The outcome of handling a message, and the connections that are left.
pub open spec fn handles<H>(
    r: Result<Action<H>, ConnectionError>,
    msg: TungMessageModel,
    before: Seq<(Seq<u8>, H)>,
    after: Seq<(Seq<u8>, H)>,
) -> bool {
    match demand(msg) {
        Some(demand) => meets(r, demand, before) && after == left(demand, before),
        None => {
            &&& msg matches TungMessageModel::Binary(bytes)
            &&& refuses(r, proto_message::received(bytes))
            &&& after == before
        },
    }
}

/// What happens on the connection with the remote host.
#[derive(Debug)]
pub enum WebSocketOperation {
    /// The next item of the stream came.
    Receive(Option<Result<TungMessage, TungError>>),
    /// A connection with a terminal has a message.
    Send(Option<ProtoMessage>),
    /// Nothing came for a while.
    Ping,
}

/// What to do about an error.
#[derive(Debug)]
pub enum Recovery {
    /// Open the connection with the remote host again.
    Reconnect(TungError),
    /// Report the error.
    Report(ConnectionError),
}

/// The errors of the connection with the remote host itself call for a new one; all others are
/// reported.
pub open spec fn recovers(err: ConnectionError, r: Recovery) -> bool {
    match err {
        ConnectionError::WebSocketSend(err) => r == Recovery::Reconnect(err),
        ConnectionError::WebSocketNext(err) => r == Recovery::Reconnect(err),
        ConnectionError::Reconnect(err) => r == Recovery::Reconnect(err),
        other => r == Recovery::Report(other),
    }
}

/// What to do about an error.
pub fn recover(err: ConnectionError) -> (r: Recovery)
    ensures
        recovers(err, r),
{
    match err {
        ConnectionError::WebSocketSend(err) => Recovery::Reconnect(err),
        ConnectionError::WebSocketNext(err) => Recovery::Reconnect(err),
        ConnectionError::Reconnect(err) => Recovery::Reconnect(err),
        other => Recovery::Report(other),
    }
}

/// What to do next for the connection with the remote host.
#[derive(Debug)]
pub enum Turn<H> {
    /// Act, and go on.
    Act(Action<H>),
    /// Recover from an error, and go on.
    Recover(Recovery),
    /// End.
    Stop,
}

/// The turn that the outcome of handling a message leads to.
pub open spec fn turns<H>(outcome: Result<Action<H>, ConnectionError>, turn: Turn<H>) -> bool {
    match outcome {
        Ok(action) => turn == Turn::Act(action),
        Err(err) => turn matches Turn::Recover(recovery) && recovers(err, recovery),
    }
}

/// What happened can be handled: a message from the remote host can be, and the channel from the
/// connections with terminals is open.
pub open spec fn can_turn(op: WebSocketOperation) -> bool {
    match op {
        WebSocketOperation::Receive(Some(Ok(msg))) => can_handle(msg@),
        WebSocketOperation::Send(msg) => msg is Some,
        _ => true,
    }
}

/// The turn taken on what happened, and the connections that are left. A failing stream is opened
/// again, and its end is the end; a message of a terminal is written out; and where nothing came for
/// a while the remote host is pinged.
pub open spec fn takes_turn<H>(
    op: WebSocketOperation,
    before: Seq<(Seq<u8>, H)>,
    after: Seq<(Seq<u8>, H)>,
    turn: Turn<H>,
) -> bool {
    match op {
        WebSocketOperation::Receive(Some(Ok(msg))) => exists|
            outcome: Result<Action<H>, ConnectionError>,
        | #[trigger]
            handles(outcome, msg@, before, after) && turns(outcome, turn),
        WebSocketOperation::Receive(Some(Err(err))) => {
            &&& turn == Turn::<H>::Recover(Recovery::Reconnect(err))
            &&& after == before
        },
        WebSocketOperation::Receive(None) => {
            &&& turn is Stop
            &&& after == before
        },
        WebSocketOperation::Send(msg) => {
            &&& turn matches Turn::Act(Action::Send(sent))
            &&& msg matches Some(msg)
            &&& sent@ == TungMessageModel::Binary(proto_message::message_bytes(msg@))
            &&& after == before
        },
        WebSocketOperation::Ping => {
            &&& turn matches Turn::Act(Action::Send(sent))
            &&& sent@ == TungMessageModel::Ping(Seq::empty())
            &&& after == before
        },
    }
}

/// Whether a message from the remote host can be handled.
pub fn check_msg(msg: &TungMessage) -> (r: bool)
    ensures
        r == can_handle(msg@),
{
    match msg {
        TungMessage::Binary(bytes) => ProtoMessage::decode_checked(bytes.as_slice()).is_some(),
        _ => true,
    }
}

/// Whether what happened can be handled.
pub fn check_turn(op: &WebSocketOperation) -> (r: bool)
    ensures
        r == can_turn(*op),
{
    match op {
        WebSocketOperation::Receive(Some(Ok(msg))) => check_msg(msg),
        WebSocketOperation::Send(msg) => msg.is_some(),
        _ => true,
    }
}

/// The message that reports a response.
pub open spec fn response_message(
    request_id: Seq<u8>,
    status_code: u16,
    headers: Seq<(Seq<char>, Seq<char>)>,
    payload: Seq<u8>,
) -> ProtocolModel {
    ProtocolModel::Http(
        HttpModel::Response(HttpResponseModel { request_id, status_code, headers, payload }),
    )
}

/// The headers give each name its last value, and occur once.
pub open spec fn named_last(
    headers: Seq<(Seq<char>, Seq<char>)>,
    values: Map<Seq<char>, Seq<Seq<u8>>>,
) -> bool {
    &&& vec_map::distinct_keys(headers)
    &&& forall|name: Seq<char>| #[trigger]
        vec_map::lookup(headers, name) == header_map::last_text(values, name)
}

/// The message reports a response with such values of its headers, in whatever order.
pub open spec fn reports(
    msg: ProtocolModel,
    request_id: Seq<u8>,
    status_code: u16,
    values: Map<Seq<char>, Seq<Seq<u8>>>,
    payload: Seq<u8>,
) -> bool {
    exists|headers: Seq<(Seq<char>, Seq<char>)>| #[trigger]
        named_last(headers, values) && msg == response_message(
            request_id,
            status_code,
            headers,
            payload,
        )
}

/// The connection with the remote host.
#[derive(Debug)]
pub struct ConnectionsHandler<H, S> {
    connections: Connections<H>,
    ws_stream: S,
    url: Url,
}

impl<H, S> ConnectionsHandler<H, S> {
    /// The connections with terminals.
    pub closed spec fn connections(self) -> Seq<(Seq<u8>, H)> {
        self.connections@
    }

    /// The stream with the remote host.
    pub closed spec fn ws_stream(self) -> S {
        self.ws_stream
    }

    /// Where the remote host is.
    pub closed spec fn url(self) -> UrlModel {
        self.url@
    }

    /// The handler of a connection with the remote host over a stream. There are no connections with
    /// terminals yet.
    pub fn over(url: Url, ws_stream: S) -> (r: Self)
        ensures
            r.connections() == Seq::<(Seq<u8>, H)>::empty(),
            r.ws_stream() == ws_stream,
            r.url() == url@,
    {
        Self { connections: Connections::new(), ws_stream, url }
    }

    /// The handler of a connection with the remote host, given what came of opening it.
    pub fn connect(url: Url, opened: Result<S, TungError>) -> (r: Result<Self, Error>)
        ensures
            match opened {
                Ok(stream) => r matches Ok(handler) && handler.connections() == Seq::<
                    (Seq<u8>, H),
                >::empty() && handler.ws_stream() == stream && handler.url() == url@,
                Err(err) => r matches Err(Error::WebSocketConnect(e)) && e == err,
            },
    {
        match opened {
            Ok(ws_stream) => Ok(Self::over(url, ws_stream)),
            Err(err) => Err(Error::WebSocketConnect(err)),
        }
    }

    /// Goes over to a new stream with the remote host, given what came of opening it.
    pub fn reconnect(&mut self, opened: Result<S, TungError>) -> (r: Result<
        (),
        ConnectionError,
    >)
        ensures
            final(self).connections() == old(self).connections(),
            final(self).url() == old(self).url(),
            match opened {
                Ok(stream) => r is Ok && final(self).ws_stream() == stream,
                Err(err) => r matches Err(ConnectionError::Reconnect(e)) && e == err && final(self).ws_stream()
                    == old(self).ws_stream(),
            },
    {
        match opened {
            Ok(ws_stream) => {
                self.ws_stream = ws_stream;
                Ok(())
            },
            Err(err) => Err(ConnectionError::Reconnect(err)),
        }
    }

    /// Where the remote host is.
    pub fn get_url(&self) -> (r: &Url)
        ensures
            r@ == self.url(),
    {
        &self.url
    }

    /// The stream with the remote host.
    pub fn ws_stream_mut(&mut self) -> (r: &mut S)
        ensures
            *r == old(self).ws_stream(),
            final(self).ws_stream() == *final(r),
            final(self).connections() == old(self).connections(),
            final(self).url() == old(self).url(),
    {
        &mut self.ws_stream
    }

    /// The connection with that ID. Every ID occurs once.
    pub fn get_connection(&self, id: &Vec<u8>) -> (r: Option<&H>)
        ensures
            match r {
                Some(connection) => vec_map::lookup(self.connections(), id@) == Some(*connection),
                None => vec_map::lookup(self.connections(), id@) is None,
            },
            vec_map::distinct_keys(self.connections()),
    {
        self.connections.get_connection(id)
    }

    /// Handles a message of one of the protocols.
    pub fn handle_protocol(&mut self, protocol: Protocol) -> (r: Result<
        Action<H>,
        ConnectionError,
    >)
        ensures
            meets(r, protocol_demand(protocol@), old(self).connections()),
            final(self).connections() == left(
                protocol_demand(protocol@),
                old(self).connections(),
            ),
            handles_protocol(
                r,
                protocol@,
                old(self).connections(),
                final(self).connections(),
            ),
            match protocol@ {
                ProtocolModel::Http(HttpModel::Response(_)) => r matches Ok(Action::Nothing),
                ProtocolModel::Http(HttpModel::Request(_)) => match r {
                    Ok(action) => action is Upgrade || action is Request,
                    Err(err) => err is Protobuf,
                },
                ProtocolModel::WebSocket(ws) => match vec_map::lookup(
                    old(self).connections(),
                    ws.socket_id,
                ) {
                    None => r matches Ok(Action::Nothing),
                    Some(connection) => if ws.message is Close {
                        r matches Ok(Action::Close(c, content)) && c == connection && content@
                            == ws.message
                    } else {
                        r matches Ok(Action::Forward(id, content)) && id@ == ws.socket_id
                            && content@ == ws.message
                    },
                },
            },
            !(protocol@ matches ProtocolModel::WebSocket(ws) && ws.message is Close) ==> final(
                self).connections() == old(self).connections(),
            final(self).ws_stream() == old(self).ws_stream(),
            final(self).url() == old(self).url(),
    {
        match protocol {
            Protocol::Http(Http::Response(_)) => Ok(Action::Nothing),
            Protocol::Http(Http::Request(http_req)) => {
                if http_req.is_connection_upgrade() {
                    match http_req.upgrade() {
                        Ok((request_id, upgrade)) => Ok(Action::Upgrade(request_id, upgrade)),
                        Err(err) => Err(ConnectionError::Protobuf(err)),
                    }
                } else {
                    match http_req.send() {
                        Ok((request_id, request)) => Ok(Action::Request(request_id, request)),
                        Err(err) => Err(ConnectionError::Protobuf(err)),
                    }
                }
            },
            Protocol::WebSocket(ws) => {
                let (id, ws_msg) = ws.into_inner();
                if ws_msg.is_close() {
                    return match self.connections.remove_connection(&id) {
                        Some(connection) => Ok(Action::Close(connection, ws_msg)),
                        None => Ok(Action::Nothing),
                    };
                }
                match self.connections.get_connection(&id) {
                    Some(_) => Ok(Action::Forward(id, ws_msg)),
                    None => Ok(Action::Nothing),
                }
            },
        }
    }

    /// Handles a message from the remote host.
    pub fn handle_msg(&mut self, msg: TungMessage) -> (r: Result<Action<H>, ConnectionError>)
        requires
            can_handle(msg@),
        ensures
            handles(r, msg@, old(self).connections(), final(self).connections()),
            final(self).ws_stream() == old(self).ws_stream(),
            final(self).url() == old(self).url(),
    {
        match msg {
            TungMessage::Ping(data) => Ok(Action::Send(TungMessage::Pong(data))),
            TungMessage::Pong(_) => Ok(Action::Nothing),
            TungMessage::Close(_) => Ok(Action::Abort(self.connections.clear())),
            TungMessage::Text(_) => Ok(Action::Nothing),
            TungMessage::Binary(bytes) => match ProtoMessage::decode(bytes.as_slice()) {
                Ok(msg) => self.handle_protocol(msg.protocol()),
                Err(err) => Err(ConnectionError::Protobuf(err)),
            },
            TungMessage::Frame => Ok(Action::Nothing),
        }
    }

    /// Handles a message from the remote host. `None`, with nothing changed, for one that cannot be
    /// handled.
    pub fn handle_msg_checked(&mut self, msg: TungMessage) -> (r: Option<
        Result<Action<H>, ConnectionError>,
    >)
        ensures
            match r {
                Some(r) => can_handle(msg@) && handles(
                    r,
                    msg@,
                    old(self).connections(),
                    final(self).connections(),
                ),
                None => !can_handle(msg@) && final(self).connections()
                    == old(self).connections(),
            },
            final(self).ws_stream() == old(self).ws_stream(),
            final(self).url() == old(self).url(),
    {
        if !check_msg(&msg) {
            return None;
        }
        Some(self.handle_msg(msg))
    }

    /// One turn of the connection with the remote host, on what happened on it. The channel from the
    /// connections with terminals stays open as long as the handler.
    pub fn handle_connections(&mut self, op: WebSocketOperation) -> (r: Result<Turn<H>, Error>)
        requires
            can_turn(op),
        ensures
            r matches Ok(turn) && takes_turn(
                op,
                old(self).connections(),
                final(self).connections(),
                turn,
            ),
            final(self).ws_stream() == old(self).ws_stream(),
            final(self).url() == old(self).url(),
    {
        let outcome = match op {
            WebSocketOperation::Receive(Some(Ok(msg))) => self.handle_msg(msg),
            WebSocketOperation::Receive(Some(Err(err))) => Err(ConnectionError::WebSocketSend(err)),
            WebSocketOperation::Receive(None) => {
                return Ok(Turn::Stop);
            },
            WebSocketOperation::Send(msg) => match msg.unwrap().encode() {
                Ok(bytes) => Ok(Action::Send(TungMessage::Binary(bytes))),
                Err(err) => {
                    return Err(Error::Protobuf(err));
                },
            },
            WebSocketOperation::Ping => {
                let ping = TungMessage::Ping(Vec::new());
                assert(ping@ == TungMessageModel::Ping(Seq::empty()));
                Ok(Action::Send(ping))
            },
        };
        let turn = match outcome {
            Ok(action) => Turn::Act(action),
            Err(err) => Turn::Recover(recover(err)),
        };
        assert(turns(outcome, turn));
        Ok(turn)
    }

    /// The message that reports a response, or a part of it.
    pub fn send_http_res(
        request_id: &[u8],
        status_code: u16,
        headers: Headers,
        payload: Vec<u8>,
    ) -> (r: ProtoMessage)
        ensures
            r@ == response_message(request_id@, status_code, headers@, payload@),
    {
        let proto_res = HttpResponse::new(request_id, status_code, headers, payload);
        ProtoMessage::new(Protocol::Http(Http::Response(proto_res)))
    }

    /// Adds a connection that was opened on request, with the stream that it runs over already
    /// handed to `connection`. Gives the connection that it replaces, and the message that reports
    /// the response.
    pub fn upgraded(
        &mut self,
        connection: H,
        request_id: Vec<u8>,
        res: UpgradeResponse,
    ) -> (r: (Option<H>, ProtoMessage))
        requires
            header_map::all_visible(header_map::header_values(res.headers)),
        ensures
            final(self).connections() == vec_map::inserted(
                old(self).connections(),
                request_id@,
                connection,
            ),
            final(self).ws_stream() == old(self).ws_stream(),
            final(self).url() == old(self).url(),
            r.0 == vec_map::lookup(old(self).connections(), request_id@),
            reports(
                r.1@,
                request_id@,
                res.status_code,
                header_map::header_values(res.headers),
                match res.body {
                    Some(body) => body@,
                    None => Seq::empty(),
                },
            ),
    {
        let id = request_id.clone();
        let replaced = self.connections.add_connection(connection, id);
        let headers = header_map::headermap_to_hashmap(&res.headers);
        let payload = match res.body {
            Some(body) => body,
            None => Vec::new(),
        };
        let msg = Self::send_http_res(
            request_id.as_slice(),
            res.status_code,
            headers,
            payload,
        );
        assert(named_last(headers@, header_map::header_values(res.headers)));
        (replaced, msg)
    }

    /// What the next part of a response means: a message that reports it, or the end.
    pub fn next_chunk(
        request_id: &[u8],
        status_code: u16,
        headers: &Headers,
        chunk: Result<Option<Vec<u8>>, ReqwestError>,
    ) -> (r: Result<Option<ProtoMessage>, ConnectionError>)
        ensures
            match chunk {
                Ok(Some(payload)) => r matches Ok(Some(msg)) && msg@ == response_message(
                    request_id@,
                    status_code,
                    headers@,
                    payload@,
                ),
                Ok(None) => r matches Ok(None),
                Err(err) => r matches Err(ConnectionError::Reqwest(e)) && e == err,
            },
    {
        match chunk {
            Ok(Some(payload)) => Ok(
                Some(Self::send_http_res(request_id, status_code, headers.clone(), payload)),
            ),
            Ok(None) => Ok(None),
            Err(err) => Err(ConnectionError::Reqwest(err)),
        }
    }
}

/// A ping is answered with a pong of the same data, and no connection is touched.
pub proof fn law_ping_is_answered<H>(
    r: Result<Action<H>, ConnectionError>,
    data: Seq<u8>,
    before: Seq<(Seq<u8>, H)>,
    after: Seq<(Seq<u8>, H)>,
)
    requires
        handles(r, TungMessageModel::Ping(data), before, after),
    ensures
        r matches Ok(Action::Send(msg)) && msg@ == TungMessageModel::Pong(data),
        after == before,
{
}

/// A close frame from the remote host aborts every connection with a terminal, and leaves none.
pub proof fn law_close_frame_aborts_all<H>(
    r: Result<Action<H>, ConnectionError>,
    frame: Option<(u16, Seq<char>)>,
    before: Seq<(Seq<u8>, H)>,
    after: Seq<(Seq<u8>, H)>,
)
    requires
        handles(r, TungMessageModel::Close(frame), before, after),
    ensures
        after.len() == 0,
        r matches Ok(Action::Abort(all)) && all@.len() == before.len() && forall|i: int|
            0 <= i < before.len() ==> #[trigger] all@[i] == before[i].1,
{
}

/// A message that is not a close frame touches at most the connection that it closes: every other
/// connection is left as it was, and none is added.
pub proof fn law_other_connections_are_kept<H>(
    r: Result<Action<H>, ConnectionError>,
    msg: TungMessageModel,
    before: Seq<(Seq<u8>, H)>,
    after: Seq<(Seq<u8>, H)>,
    id: Seq<u8>,
)
    requires
        handles(r, msg, before, after),
        vec_map::distinct_keys(before),
        !(msg is Close),
        !(demand(msg) matches Some(Demand::Close(closed, _)) && closed == id),
    ensures
        vec_map::lookup(after, id) == vec_map::lookup(before, id),
        vec_map::distinct_keys(after),
{
    if let Some(Demand::Close(closed, _)) = demand(msg) {
        vec_map::law_removed(before, closed, id);
    }
}

/// A connection that was closed is gone: what the remote host sends to it afterwards, a closure as
/// well, is discarded.
pub proof fn law_closed_connection_discards<H>(
    first: Result<Action<H>, ConnectionError>,
    close: TungMessageModel,
    second: Result<Action<H>, ConnectionError>,
    later: TungMessageModel,
    before: Seq<(Seq<u8>, H)>,
    between: Seq<(Seq<u8>, H)>,
    after: Seq<(Seq<u8>, H)>,
    id: Seq<u8>,
    reason: WebSocketMessageModel,
    content: WebSocketMessageModel,
)
    requires
        vec_map::distinct_keys(before),
        demand(close) == Some(Demand::Close(id, reason)),
        handles(first, close, before, between),
        demand(later) == Some(Demand::Forward(id, content)) || demand(later) == Some(
            Demand::Close(id, content),
        ),
        handles(second, later, between, after),
    ensures
        second matches Ok(Action::Nothing),
        after == between,
{
    vec_map::law_removed(before, id, id);
}

/// A connection that was opened on request is found under the ID of the request: what the remote
/// host sends to it is passed on.
pub proof fn law_opened_connection_receives<H>(
    connection: H,
    id: Seq<u8>,
    r: Result<Action<H>, ConnectionError>,
    msg: TungMessageModel,
    content: WebSocketMessageModel,
    before: Seq<(Seq<u8>, H)>,
    after: Seq<(Seq<u8>, H)>,
)
    requires
        vec_map::distinct_keys(before),
        demand(msg) == Some(Demand::Forward(id, content)),
        handles(r, msg, vec_map::inserted(before, id, connection), after),
    ensures
        vec_map::lookup(vec_map::inserted(before, id, connection), id) == Some(connection),
        r matches Ok(Action::Forward(i, m)) && i@ == id && m@ == content,
        after == vec_map::inserted(before, id, connection),
{
    vec_map::law_inserted(before, id, connection, id);
}

/// A message written by this library is received as it was written: what a peer that sends it asks
/// for is what the message says, but for the port of a request.
pub proof fn law_written_message_is_understood(protocol: ProtocolModel)
    requires
        protocol.wf(),
        proto_message::message_bytes(protocol).len() <= u64::MAX,
    ensures
        demand(TungMessageModel::Binary(proto_message::message_bytes(protocol))) == Some(
            protocol_demand(proto_message::without_port(protocol)),
        ),
{
    proto_message::law_message_survives_wire(protocol);
}

/// Every content other than a closure, for a connection that is there, is passed on to that
/// connection as it is: text as text, bytes as bytes, a ping as a ping and a pong as a pong. The
/// connections stay as they are.
pub proof fn law_content_reaches_its_connection<H>(
    r: Result<Action<H>, ConnectionError>,
    id: Seq<u8>,
    content: WebSocketMessageModel,
    before: Seq<(Seq<u8>, H)>,
    after: Seq<(Seq<u8>, H)>,
)
    requires
        handles_protocol(
            r,
            ProtocolModel::WebSocket(WebSocketModel { socket_id: id, message: content }),
            before,
            after,
        ),
        exists|i: int| 0 <= i < before.len() && (#[trigger] before[i]).0 == id,
        !(content is Close),
    ensures
        after == before,
        r matches Ok(Action::Forward(to, passed)) && to@ == id && match content {
            WebSocketMessageModel::Text(text) => passed matches WebSocketMessage::Text(t) && t@
                == text,
            WebSocketMessageModel::Binary(data) => passed matches WebSocketMessage::Binary(d) && d@
                == data,
            WebSocketMessageModel::Ping(data) => passed matches WebSocketMessage::Ping(d) && d@
                == data,
            WebSocketMessageModel::Pong(data) => passed matches WebSocketMessage::Pong(d) && d@
                == data,
            WebSocketMessageModel::Close { .. } => false,
        },
{
    let i = choose|i: int| 0 <= i < before.len() && (#[trigger] before[i]).0 == id;
    assert(vec_map::has_key(before, before[i].0));
}

/// A closure takes its connection out, which is handed over with the code and the reason.
pub proof fn law_closure_takes_its_connection_out<H>(
    r: Result<Action<H>, ConnectionError>,
    i: int,
    code: u16,
    reason: Option<Seq<char>>,
    before: Seq<(Seq<u8>, H)>,
    after: Seq<(Seq<u8>, H)>,
    other: Seq<u8>,
)
    requires
        vec_map::distinct_keys(before),
        0 <= i < before.len(),
        handles_protocol(
            r,
            ProtocolModel::WebSocket(
                WebSocketModel {
                    socket_id: before[i].0,
                    message: WebSocketMessageModel::Close { code, reason },
                },
            ),
            before,
            after,
        ),
    ensures
        r matches Ok(Action::Close(connection, content)) && connection == before[i].1 && content@
            == (WebSocketMessageModel::Close { code, reason }),
        after == before.remove(i),
        vec_map::lookup(after, before[i].0) is None,
        other != before[i].0 ==> vec_map::lookup(after, other) == vec_map::lookup(before, other),
{
    vec_map::lemma_position(before, i);
    vec_map::law_removed(before, before[i].0, other);
    vec_map::law_removed(before, before[i].0, before[i].0);
}

/// What is sent to a connection that is not there is discarded, a closure as well.
pub proof fn law_unknown_connection_discards<H>(
    r: Result<Action<H>, ConnectionError>,
    id: Seq<u8>,
    content: WebSocketMessageModel,
    before: Seq<(Seq<u8>, H)>,
    after: Seq<(Seq<u8>, H)>,
)
    requires
        handles_protocol(
            r,
            ProtocolModel::WebSocket(WebSocketModel { socket_id: id, message: content }),
            before,
            after,
        ),
        forall|i: int| 0 <= i < before.len() ==> (#[trigger] before[i]).0 != id,
    ensures
        r matches Ok(Action::Nothing),
        after == before,
{
}

/// A response is not for this device: nothing comes of it.
pub proof fn law_response_is_ignored<H>(
    r: Result<Action<H>, ConnectionError>,
    res: HttpResponseModel,
    before: Seq<(Seq<u8>, H)>,
    after: Seq<(Seq<u8>, H)>,
)
    requires
        handles_protocol(r, ProtocolModel::Http(HttpModel::Response(res)), before, after),
    ensures
        r matches Ok(Action::Nothing),
        after == before,
{
}

/// A request without an `Upgrade` header is performed: with its ID, its method, its whole payload,
/// and the URL of its port, path and query on this machine. No connection is touched.
pub proof fn law_request_is_performed<H>(
    r: Result<Action<H>, ConnectionError>,
    req: HttpRequestModel,
    before: Seq<(Seq<u8>, H)>,
    after: Seq<(Seq<u8>, H)>,
)
    requires
        handles_protocol(r, ProtocolModel::Http(HttpModel::Request(req)), before, after),
        forall|i: int|
            0 <= i < req.headers.len() ==> (#[trigger] req.headers[i]).0 != seq![
                'U',
                'p',
                'g',
                'r',
                'a',
                'd',
                'e',
            ],
        req.headers.len() <= 6554,
    ensures
        after == before,
        match web_url::parsed_url(
            "ws://localhost:"@ + text::decimal(req.port as nat) + "/"@ + req.path
                + req.querystring,
        ) {
            Some((url, query)) => match req.known_method() {
                Some(method) => {
                    &&& r matches Ok(Action::Request(id, sent))
                    &&& id@ == req.request_id
                    &&& sent.method == method
                    &&& sent.url@.text == url
                    &&& sent.url@.query == query
                    &&& sent.payload@ == req.payload
                    &&& header_map::header_values(sent.headers) == header_map::collected(
                        req.headers,
                    )
                },
                None => r matches Err(ConnectionError::Protobuf(ProtoError::WrongHttpMethod(_))),
            },
            None => r matches Err(ConnectionError::Protobuf(ProtoError::ParseUrl(_))),
        },
{
    reveal_strlit("Upgrade");
    assert("Upgrade"@ =~= seq!['U', 'p', 'g', 'r', 'a', 'd', 'e']);
}

/// A request with an `Upgrade` header opens a connection: under its ID, with its method, and at the
/// URI of its port, path and query on this machine. No connection is touched yet.
pub proof fn law_upgrade_opens_connection<H>(
    r: Result<Action<H>, ConnectionError>,
    req: HttpRequestModel,
    i: int,
    before: Seq<(Seq<u8>, H)>,
    after: Seq<(Seq<u8>, H)>,
)
    requires
        handles_protocol(r, ProtocolModel::Http(HttpModel::Request(req)), before, after),
        0 <= i < req.headers.len() <= 6554,
        req.headers[i].0 == seq!['U', 'p', 'g', 'r', 'a', 'd', 'e'],
    ensures
        after == before,
        match (
            req.known_method(),
            proto_message::request_uri_text(
                "ws://localhost:"@ + text::decimal(req.port as nat) + "/"@ + req.path
                    + req.querystring,
            ),
        ) {
            (Some(method), Some(uri)) => {
                &&& r matches Ok(Action::Upgrade(id, sent))
                &&& id@ == req.request_id
                &&& sent.method == method
                &&& sent.uri@ == uri
                &&& header_map::header_values(sent.headers) == header_map::first_values(
                    header_map::collected(req.headers),
                )
            },
            (Some(_), None) => r matches Err(ConnectionError::Protobuf(ProtoError::Http(_))),
            (None, _) => r matches Err(
                ConnectionError::Protobuf(ProtoError::WrongHttpMethod(_)),
            ),
        },
{
    reveal_strlit("Upgrade");
    assert("Upgrade"@ =~= seq!['U', 'p', 'g', 'r', 'a', 'd', 'e']);
    assert(vec_map::has_key(req.headers, req.headers[i].0));
}

/// Of the messages from the remote host only bytes hold anything for a terminal. They are handled as
/// the message that they are received as, and where they are none the error says so, and nothing
/// changes. Text, a pong and a raw frame are passed over.
pub proof fn law_bytes_are_handled_as_received<H>(
    r: Result<Action<H>, ConnectionError>,
    msg: TungMessageModel,
    before: Seq<(Seq<u8>, H)>,
    after: Seq<(Seq<u8>, H)>,
)
    requires
        handles(r, msg, before, after),
    ensures
        match msg {
            TungMessageModel::Binary(bytes) => match proto_message::received(bytes) {
                Received::Message(protocol) => handles_protocol(r, protocol, before, after),
                Received::Malformed => after == before && (r matches Err(
                    ConnectionError::Protobuf(ProtoError::Decode(_)),
                )),
                Received::Empty(Missing::Http) => after == before && (r matches Err(
                    ConnectionError::Protobuf(ProtoError::EmptyHttpMessage),
                )),
                Received::Empty(Missing::WebSocket) => after == before && (r matches Err(
                    ConnectionError::Protobuf(ProtoError::EmptyWsMessage),
                )),
                Received::NoProtocol => false,
            },
            TungMessageModel::Text(_) => after == before && (r matches Ok(Action::Nothing)),
            TungMessageModel::Pong(_) => after == before && (r matches Ok(Action::Nothing)),
            TungMessageModel::Frame => after == before && (r matches Ok(Action::Nothing)),
            TungMessageModel::Ping(data) => after == before && (r matches Ok(Action::Send(pong))
                && pong@ == TungMessageModel::Pong(data)),
            TungMessageModel::Close(_) => after.len() == 0,
        },
{
}

/// What a peer sends to a connection that is there reaches it: the bytes that carry a content other
/// than a closure are answered by passing that content on to the connection with that ID.
pub proof fn law_sent_content_reaches_its_connection<H>(
    r: Result<Action<H>, ConnectionError>,
    id: Seq<u8>,
    content: WebSocketMessageModel,
    before: Seq<(Seq<u8>, H)>,
    after: Seq<(Seq<u8>, H)>,
)
    requires
        ({
            let sent = ProtocolModel::WebSocket(
                WebSocketModel { socket_id: id, message: content },
            );
            &&& proto_message::message_bytes(sent).len() <= u64::MAX
            &&& handles(
                r,
                TungMessageModel::Binary(proto_message::message_bytes(sent)),
                before,
                after,
            )
        }),
        exists|i: int| 0 <= i < before.len() && (#[trigger] before[i]).0 == id,
        !(content is Close),
    ensures
        after == before,
        r matches Ok(Action::Forward(to, passed)) && to@ == id && passed@ == content,
{
    let sent = ProtocolModel::WebSocket(WebSocketModel { socket_id: id, message: content });
    proto_message::law_message_survives_wire(sent);
    law_content_reaches_its_connection(r, id, content, before, after);
}

/// A message can be handled unless its bytes are a message without a protocol.
pub proof fn law_what_can_be_handled(msg: TungMessageModel)
    ensures
        !can_handle(msg) <==> (msg matches TungMessageModel::Binary(bytes)
            && wire::read_message::<proto::Message>(bytes) == Some(
            proto::MessageModel { protocol: None },
        )),
{
}

/// What happened can be handled unless it is a message that cannot be, or the end of the channel
/// from the connections with terminals.
pub proof fn law_what_can_be_turned(
    msg: TungMessage,
    err: TungError,
    sent: ProtoMessage,
)
    ensures
        can_turn(WebSocketOperation::Receive(Some(Ok(msg)))) == can_handle(msg@),
        can_turn(WebSocketOperation::Receive(Some(Err(err)))),
        can_turn(WebSocketOperation::Receive(None)),
        can_turn(WebSocketOperation::Send(Some(sent))),
        !can_turn(WebSocketOperation::Send(None)),
        can_turn(WebSocketOperation::Ping),
{
}

/// The errors of the stream with the remote host, and only those, call for a new stream. All others
/// are reported as they are.
pub proof fn law_recovery(err: ConnectionError, r: Recovery)
    requires
        recovers(err, r),
    ensures
        match r {
            Recovery::Reconnect(e) => err == ConnectionError::WebSocketSend(e) || err
                == ConnectionError::WebSocketNext(e) || err == ConnectionError::Reconnect(e),
            Recovery::Report(e) => e == err && !(err is WebSocketSend) && !(err is WebSocketNext)
                && !(err is Reconnect),
        },
{
}

/// A turn does what handling the message comes to, and recovers from its error.
pub proof fn law_turn_on_a_message<H>(
    msg: TungMessage,
    before: Seq<(Seq<u8>, H)>,
    after: Seq<(Seq<u8>, H)>,
    turn: Turn<H>,
)
    requires
        takes_turn(WebSocketOperation::Receive(Some(Ok(msg))), before, after, turn),
    ensures
        !(turn is Stop),
        turn matches Turn::Act(action) ==> handles(Ok(action), msg@, before, after),
        turn matches Turn::Recover(recovery) ==> (recovery matches Recovery::Report(err) && handles(
            Err(err),
            msg@,
            before,
            after,
        )),
{
}

/// A turn on anything else than a message touches no connection. A failing stream is opened again,
/// its end is the end, and where nothing came for a while an empty ping is sent.
pub proof fn law_turn_on_the_stream<H>(
    err: TungError,
    before: Seq<(Seq<u8>, H)>,
    after: Seq<(Seq<u8>, H)>,
    turn: Turn<H>,
)
    ensures
        takes_turn(WebSocketOperation::Receive(Some(Err(err))), before, after, turn) ==> after
            == before && turn == Turn::<H>::Recover(Recovery::Reconnect(err)),
        takes_turn(WebSocketOperation::Receive(None), before, after, turn) ==> after == before
            && turn is Stop,
        takes_turn(WebSocketOperation::Ping, before, after, turn) ==> after == before && (
        turn matches Turn::Act(Action::Send(ping)) && ping@ == TungMessageModel::Ping(
            Seq::empty(),
        )),
{
}

/// A message of a terminal is sent as bytes that are received as that message, but for the port of a
/// request.
pub proof fn law_turn_on_a_message_of_a_terminal<H>(
    msg: ProtoMessage,
    before: Seq<(Seq<u8>, H)>,
    after: Seq<(Seq<u8>, H)>,
    turn: Turn<H>,
)
    requires
        takes_turn(WebSocketOperation::Send(Some(msg)), before, after, turn),
        msg@.wf(),
        proto_message::message_bytes(msg@).len() <= u64::MAX,
    ensures
        after == before,
        turn matches Turn::Act(Action::Send(TungMessage::Binary(bytes)))
            && proto_message::received(bytes@) == Received::Message(
            proto_message::without_port(msg@),
        ),
{
    proto_message::law_message_survives_wire(msg@);
}

/// A response is reported with the ID of its request, its status, its whole payload, and for every
/// name of a header the text of its last value.
pub proof fn law_response_is_reported(
    msg: ProtocolModel,
    request_id: Seq<u8>,
    status_code: u16,
    values: Map<Seq<char>, Seq<Seq<u8>>>,
    payload: Seq<u8>,
    name: Seq<char>,
)
    requires
        reports(msg, request_id, status_code, values, payload),
        values.contains_key(name) ==> values[name].len() > 0,
    ensures
        msg matches ProtocolModel::Http(HttpModel::Response(res)) && {
            &&& res.request_id == request_id
            &&& res.status_code == status_code
            &&& res.payload == payload
            &&& vec_map::distinct_keys(res.headers)
            &&& vec_map::has_key(res.headers, name) <==> values.contains_key(name)
            &&& values.contains_key(name) ==> vec_map::lookup(res.headers, name) == Some(
                header_map::ascii_text(values[name][values[name].len() - 1]),
            )
        },
{
    let headers = choose|headers: Seq<(Seq<char>, Seq<char>)>| #[trigger]
        named_last(headers, values) && msg == response_message(
            request_id,
            status_code,
            headers,
            payload,
        );
    assert(vec_map::lookup(headers, name) == header_map::last_text(values, name));
}

/// The message that reports a response, or a part of it, is a response with all that is given.
pub proof fn law_response_message(
    request_id: Seq<u8>,
    status_code: u16,
    headers: Seq<(Seq<char>, Seq<char>)>,
    payload: Seq<u8>,
)
    ensures
        response_message(request_id, status_code, headers, payload) matches ProtocolModel::Http(
            HttpModel::Response(res),
        ) && res.request_id == request_id && res.status_code == status_code && res.headers
            == headers && res.payload == payload,
{
}

} // verus!
