//! The messages exchanged with the remote host: HTTP requests and responses, and the messages of
//! the WebSocket connections that run through it.

use reqwest::header::{HeaderMap, HeaderValue};
use reqwest::Error as ReqwestError;
use tungstenite::http::Error as HttpError;
use tungstenite::Error as TungError;
use vstd::prelude::*;

use crate::header_map;
use crate::headers::Headers;
use crate::proto;
use crate::text;
use crate::tung_message::{CloseFrame, TungMessage, TungMessageModel};
use crate::vec_map;
use crate::web_url;
use crate::web_url::{Url, UrlModel};
use crate::wire;

verus! {

/// The error `prost` reports where a buffer is too small.
#[verifier::external_type_specification]
#[verifier::external_body]
pub struct ExEncodeError(prost::EncodeError);

/// The error `http` reports for a malformed request.
#[verifier::external_type_specification]
#[verifier::external_body]
pub struct ExHttpError(HttpError);

/// The error `reqwest` reports for a request that failed.
#[verifier::external_type_specification]
#[verifier::external_body]
pub struct ExReqwestError(ReqwestError);

/// The error `tungstenite` reports for a WebSocket connection.
#[verifier::external_type_specification]
#[verifier::external_body]
pub struct ExTungError(TungError);

/// What goes wrong with a message.
#[non_exhaustive]
#[derive(Debug)]
pub enum ProtoError {
    /// The bytes are no Protobuf message.
    Decode(prost::DecodeError),
    /// The message cannot be written.
    Encode(prost::EncodeError),
    /// A raw WebSocket frame was received.
    WrongWsFrame,
    /// A WebSocket message lacks its content.
    EmptyWsMessage,
    /// An HTTP message lacks its content.
    EmptyHttpMessage,
    /// The HTTP method is not known.
    WrongHttpMethod(String),
    /// The HTTP request is malformed.
    Http(HttpError),
    /// The HTTP request failed.
    Reqwest(ReqwestError),
    /// The URL is malformed.
    ParseUrl(url::ParseError),
    /// The WebSocket connection with the terminal failed.
    WebSocketConnect(TungError),
    /// The headers are too many for one request.
    TooManyHeaders,
}

/// What the content of a WebSocket message is.
pub enum WebSocketMessageModel {
    Text(Seq<char>),
    Binary(Seq<u8>),
    Ping(Seq<u8>),
    Pong(Seq<u8>),
    Close { code: u16, reason: Option<Seq<char>> },
}

/// The content of a WebSocket message.
#[derive(Debug)]
pub enum WebSocketMessage {
    Text(String),
    Binary(Vec<u8>),
    Ping(Vec<u8>),
    Pong(Vec<u8>),
    Close { code: u16, reason: Option<String> },
}

impl View for WebSocketMessage {
    type V = WebSocketMessageModel;

    open spec fn view(&self) -> WebSocketMessageModel {
        match self {
            WebSocketMessage::Text(data) => WebSocketMessageModel::Text(data@),
            WebSocketMessage::Binary(data) => WebSocketMessageModel::Binary(data@),
            WebSocketMessage::Ping(data) => WebSocketMessageModel::Ping(data@),
            WebSocketMessage::Pong(data) => WebSocketMessageModel::Pong(data@),
            WebSocketMessage::Close { code, reason } => WebSocketMessageModel::Close {
                code: *code,
                reason: wire::string_option(*reason),
            },
        }
    }
}

impl WebSocketMessage {
    pub fn text(data: String) -> (r: Self)
        ensures
            r@ == WebSocketMessageModel::Text(data@),
    {
        Self::Text(data)
    }

    pub fn binary(data: Vec<u8>) -> (r: Self)
        ensures
            r@ == WebSocketMessageModel::Binary(data@),
    {
        Self::Binary(data)
    }

    pub fn ping(data: Vec<u8>) -> (r: Self)
        ensures
            r@ == WebSocketMessageModel::Ping(data@),
    {
        Self::Ping(data)
    }

    pub fn pong(data: Vec<u8>) -> (r: Self)
        ensures
            r@ == WebSocketMessageModel::Pong(data@),
    {
        Self::Pong(data)
    }

    pub fn close(code: u16, reason: Option<String>) -> (r: Self)
        ensures
            r@ == (WebSocketMessageModel::Close { code, reason: wire::string_option(reason) }),
    {
        Self::Close { code, reason }
    }

    /// Whether the message closes its connection.
    pub fn is_close(&self) -> (r: bool)
        ensures
            r == (self@ is Close),
    {
        matches!(self, WebSocketMessage::Close { code: _, reason: _ })
    }
}

/// The code of a connection that is closed in the normal way.
pub const CLOSE_NORMAL: u16 = 1000;

/// The content of a message that came over a WebSocket connection. A close frame without a code and
/// a reason stands for a normal closure; a raw frame has no content.
pub open spec fn content_of(msg: TungMessageModel) -> Option<WebSocketMessageModel> {
    match msg {
        TungMessageModel::Text(data) => Some(WebSocketMessageModel::Text(data)),
        TungMessageModel::Binary(data) => Some(WebSocketMessageModel::Binary(data)),
        TungMessageModel::Ping(data) => Some(WebSocketMessageModel::Ping(data)),
        TungMessageModel::Pong(data) => Some(WebSocketMessageModel::Pong(data)),
        TungMessageModel::Close(Some((code, reason))) => Some(
            WebSocketMessageModel::Close { code, reason: Some(reason) },
        ),
        TungMessageModel::Close(None) => Some(
            WebSocketMessageModel::Close { code: CLOSE_NORMAL, reason: None },
        ),
        TungMessageModel::Frame => None,
    }
}

impl TryFrom<TungMessage> for WebSocketMessage {
    type Error = ProtoError;

    fn try_from(tung_msg: TungMessage) -> (r: Result<Self, ProtoError>)
        ensures
            match r {
                Ok(msg) => content_of(tung_msg@) == Some(msg@),
                Err(err) => content_of(tung_msg@) is None && err is WrongWsFrame,
            },
            match tung_msg {
                TungMessage::Text(data) => r matches Ok(WebSocketMessage::Text(d)) && d@ == data@,
                TungMessage::Binary(data) => r matches Ok(WebSocketMessage::Binary(d)) && d@
                    == data@,
                TungMessage::Ping(data) => r matches Ok(WebSocketMessage::Ping(d)) && d@ == data@,
                TungMessage::Pong(data) => r matches Ok(WebSocketMessage::Pong(d)) && d@ == data@,
                TungMessage::Close(_) => r matches Ok(WebSocketMessage::Close { .. }),
                TungMessage::Frame => r is Err,
            },
    {
        let msg = match tung_msg {
            TungMessage::Text(data) => WebSocketMessage::text(data),
            TungMessage::Binary(data) => WebSocketMessage::binary(data),
            TungMessage::Ping(data) => WebSocketMessage::ping(data),
            TungMessage::Pong(data) => WebSocketMessage::pong(data),
            TungMessage::Close(Some(frame)) => WebSocketMessage::close(
                frame.code,
                Some(frame.reason),
            ),
            TungMessage::Close(None) => WebSocketMessage::close(CLOSE_NORMAL, None),
            TungMessage::Frame => {
                return Err(ProtoError::WrongWsFrame);
            },
        };
        Ok(msg)
    }
}

impl vstd::std_specs::convert::TryFromSpecImpl<TungMessage> for WebSocketMessage {
    open spec fn obeys_try_from_spec() -> bool {
        false
    }

    open spec fn try_from_spec(v: TungMessage) -> Result<Self, ProtoError> {
        arbitrary()
    }
}

/// The message that carries a content over a WebSocket connection. A closure without a reason has
/// an empty one.
pub open spec fn frame_of(msg: WebSocketMessageModel) -> TungMessageModel {
    match msg {
        WebSocketMessageModel::Text(data) => TungMessageModel::Text(data),
        WebSocketMessageModel::Binary(data) => TungMessageModel::Binary(data),
        WebSocketMessageModel::Ping(data) => TungMessageModel::Ping(data),
        WebSocketMessageModel::Pong(data) => TungMessageModel::Pong(data),
        WebSocketMessageModel::Close { code, reason: Some(reason) } => TungMessageModel::Close(
            Some((code, reason)),
        ),
        WebSocketMessageModel::Close { code, reason: None } => TungMessageModel::Close(
            Some((code, Seq::empty())),
        ),
    }
}

impl From<WebSocketMessage> for TungMessage {
    fn from(ws_msg: WebSocketMessage) -> (r: Self)
        ensures
            r@ == frame_of(ws_msg@),
            match ws_msg {
                WebSocketMessage::Text(data) => r matches TungMessage::Text(d) && d@ == data@,
                WebSocketMessage::Binary(data) => r matches TungMessage::Binary(d) && d@ == data@,
                WebSocketMessage::Ping(data) => r matches TungMessage::Ping(d) && d@ == data@,
                WebSocketMessage::Pong(data) => r matches TungMessage::Pong(d) && d@ == data@,
                WebSocketMessage::Close { code, .. } => r matches TungMessage::Close(Some(frame))
                    && frame.code == code,
            },
    {
        match ws_msg {
            WebSocketMessage::Text(data) => TungMessage::Text(data),
            WebSocketMessage::Binary(data) => TungMessage::Binary(data),
            WebSocketMessage::Ping(data) => TungMessage::Ping(data),
            WebSocketMessage::Pong(data) => TungMessage::Pong(data),
            WebSocketMessage::Close { code, reason } => {
                let reason = match reason {
                    Some(reason) => reason,
                    None => String::new(),
                };
                TungMessage::Close(Some(CloseFrame { code, reason }))
            },
        }
    }
}

impl vstd::std_specs::convert::FromSpecImpl<WebSocketMessage> for TungMessage {
    open spec fn obeys_from_spec() -> bool {
        false
    }

    open spec fn from_spec(v: WebSocketMessage) -> Self {
        arbitrary()
    }
}

/// A content that is sent over a WebSocket connection arrives as it was, but for a closure without
/// a reason, which arrives with an empty one.
pub proof fn law_content_survives_frame(msg: WebSocketMessageModel)
    ensures
        content_of(frame_of(msg)) == Some(
            match msg {
                WebSocketMessageModel::Close { code, reason: None } => {
                    WebSocketMessageModel::Close { code, reason: Some(Seq::empty()) }
                },
                other => other,
            },
        ),
{
}

/// A message other than a raw frame is sent on as it came, but for a close frame without a code and
/// a reason, which is sent on as a normal closure with an empty reason.
pub proof fn law_frame_survives_content(msg: TungMessageModel)
    requires
        !(msg is Frame),
    ensures
        content_of(msg) matches Some(content) && frame_of(content) == match msg {
            TungMessageModel::Close(None) => TungMessageModel::Close(
                Some((CLOSE_NORMAL, Seq::empty())),
            ),
            other => other,
        },
{
}

/// The content of a message has the kind of the message, and its data: text comes as text, bytes as
/// bytes, a ping as a ping and a pong as a pong. A closure keeps its code and its reason, and has the
/// normal code and no reason where it came with neither.
pub proof fn law_content_has_the_kind_of_its_message(
    text: Seq<char>,
    data: Seq<u8>,
    code: u16,
    reason: Seq<char>,
)
    ensures
        content_of(TungMessageModel::Text(text)) == Some(WebSocketMessageModel::Text(text)),
        content_of(TungMessageModel::Binary(data)) == Some(WebSocketMessageModel::Binary(data)),
        content_of(TungMessageModel::Ping(data)) == Some(WebSocketMessageModel::Ping(data)),
        content_of(TungMessageModel::Pong(data)) == Some(WebSocketMessageModel::Pong(data)),
        content_of(TungMessageModel::Close(Some((code, reason)))) == Some(
            WebSocketMessageModel::Close { code, reason: Some(reason) },
        ),
        content_of(TungMessageModel::Close(None)) == Some(
            WebSocketMessageModel::Close { code: 1000, reason: None },
        ),
        content_of(TungMessageModel::Frame) == None::<WebSocketMessageModel>,
{
}

/// A content is sent as a message of its kind, with its data. A closure keeps its code and its
/// reason, and has an empty reason where there is none.
pub proof fn law_message_has_the_kind_of_its_content(
    text: Seq<char>,
    data: Seq<u8>,
    code: u16,
    reason: Seq<char>,
)
    ensures
        frame_of(WebSocketMessageModel::Text(text)) == TungMessageModel::Text(text),
        frame_of(WebSocketMessageModel::Binary(data)) == TungMessageModel::Binary(data),
        frame_of(WebSocketMessageModel::Ping(data)) == TungMessageModel::Ping(data),
        frame_of(WebSocketMessageModel::Pong(data)) == TungMessageModel::Pong(data),
        frame_of(WebSocketMessageModel::Close { code, reason: Some(reason) })
            == TungMessageModel::Close(Some((code, reason))),
        frame_of(WebSocketMessageModel::Close { code, reason: None }) == TungMessageModel::Close(
            Some((code, Seq::empty())),
        ),
{
}

/// A content views as its kind, with its data.
pub proof fn law_content_views_as_its_kind(text: String, data: Vec<u8>, code: u16, reason: String)
    ensures
        WebSocketMessage::Text(text)@ == WebSocketMessageModel::Text(text@),
        WebSocketMessage::Binary(data)@ == WebSocketMessageModel::Binary(data@),
        WebSocketMessage::Ping(data)@ == WebSocketMessageModel::Ping(data@),
        WebSocketMessage::Pong(data)@ == WebSocketMessageModel::Pong(data@),
        (WebSocketMessage::Close { code, reason: Some(reason) })@ == (WebSocketMessageModel::Close {
            code,
            reason: Some(reason@),
        }),
        (WebSocketMessage::Close { code, reason: None })@ == (WebSocketMessageModel::Close {
            code,
            reason: None,
        }),
{
}

/// What a WebSocket message holds.
pub struct WebSocketModel {
    pub socket_id: Seq<u8>,
    pub message: WebSocketMessageModel,
}

/// A message of the WebSocket connection that an ID names.
#[derive(Debug)]
pub struct WebSocket {
    socket_id: Vec<u8>,
    message: WebSocketMessage,
}

impl View for WebSocket {
    type V = WebSocketModel;

    closed spec fn view(&self) -> WebSocketModel {
        WebSocketModel { socket_id: self.socket_id@, message: self.message@ }
    }
}

impl WebSocket {
    pub fn new(socket_id: Vec<u8>, message: WebSocketMessage) -> (r: Self)
        ensures
            r@ == (WebSocketModel { socket_id: socket_id@, message: message@ }),
    {
        Self { socket_id, message }
    }

    pub fn into_inner(self) -> (r: (Vec<u8>, WebSocketMessage))
        ensures
            self@ == (WebSocketModel { socket_id: r.0@, message: r.1@ }),
    {
        (self.socket_id, self.message)
    }

    /// The message that closes a connection in the normal way.
    pub fn close(socket_id: Vec<u8>, reason: Option<String>) -> (r: Self)
        ensures
            r@ == (WebSocketModel {
                socket_id: socket_id@,
                message: WebSocketMessageModel::Close {
                    code: CLOSE_NORMAL,
                    reason: wire::string_option(reason),
                },
            }),
    {
        Self { socket_id, message: WebSocketMessage::close(CLOSE_NORMAL, reason) }
    }
}

/// What an HTTP request holds.
pub struct HttpRequestModel {
    pub request_id: Seq<u8>,
    pub path: Seq<char>,
    pub method: Seq<char>,
    pub querystring: Seq<char>,
    pub headers: Seq<(Seq<char>, Seq<char>)>,
    pub payload: Seq<u8>,
    pub port: u16,
}

/// An HTTP request to a port of this device.
#[derive(Debug)]
pub struct HttpRequest {
    request_id: Vec<u8>,
    path: String,
    method: String,
    querystring: String,
    headers: Headers,
    payload: Vec<u8>,
    port: u16,
}

impl View for HttpRequest {
    type V = HttpRequestModel;

    closed spec fn view(&self) -> HttpRequestModel {
        HttpRequestModel {
            request_id: self.request_id@,
            path: self.path@,
            method: self.method@,
            querystring: self.querystring@,
            headers: self.headers@,
            payload: self.payload@,
            port: self.port,
        }
    }
}

/// What an HTTP response holds.
pub struct HttpResponseModel {
    pub request_id: Seq<u8>,
    pub status_code: u16,
    pub headers: Seq<(Seq<char>, Seq<char>)>,
    pub payload: Seq<u8>,
}

/// The response to an HTTP request, or a part of it.
#[derive(Debug)]
pub struct HttpResponse {
    request_id: Vec<u8>,
    status_code: u16,
    headers: Headers,
    payload: Vec<u8>,
}

impl View for HttpResponse {
    type V = HttpResponseModel;

    closed spec fn view(&self) -> HttpResponseModel {
        HttpResponseModel {
            request_id: self.request_id@,
            status_code: self.status_code,
            headers: self.headers@,
            payload: self.payload@,
        }
    }
}

impl HttpResponse {
    pub fn new(
        request_id: &[u8],
        status_code: u16,
        headers: Headers,
        payload: Vec<u8>,
    ) -> (r: Self)
        ensures
            r@ == (HttpResponseModel {
                request_id: request_id@,
                status_code,
                headers: headers@,
                payload: payload@,
            }),
    {
        let request_id = vstd::slice::slice_to_vec(request_id);
        Self { request_id, status_code, headers, payload }
    }
}

/// What an HTTP message holds.
pub enum HttpModel {
    Request(HttpRequestModel),
    Response(HttpResponseModel),
}

/// An HTTP message.
#[derive(Debug)]
pub enum Http {
    Request(HttpRequest),
    Response(HttpResponse),
}

impl View for Http {
    type V = HttpModel;

    open spec fn view(&self) -> HttpModel {
        match self {
            Http::Request(req) => HttpModel::Request(req@),
            Http::Response(res) => HttpModel::Response(res@),
        }
    }
}

/// What a message of one of the protocols holds.
pub enum ProtocolModel {
    Http(HttpModel),
    WebSocket(WebSocketModel),
}

/// A message of one of the protocols.
#[derive(Debug)]
pub enum Protocol {
    Http(Http),
    WebSocket(WebSocket),
}

impl View for Protocol {
    type V = ProtocolModel;

    open spec fn view(&self) -> ProtocolModel {
        match self {
            Protocol::Http(http) => ProtocolModel::Http(http@),
            Protocol::WebSocket(ws) => ProtocolModel::WebSocket(ws@),
        }
    }
}

impl ProtocolModel {
    /// Header names occur once.
    pub open spec fn wf(self) -> bool {
        match self {
            ProtocolModel::Http(HttpModel::Request(req)) => vec_map::distinct_keys(req.headers),
            ProtocolModel::Http(HttpModel::Response(res)) => vec_map::distinct_keys(res.headers),
            ProtocolModel::WebSocket(_) => true,
        }
    }
}

/// A run of bytes, or nothing where there are none.
pub open spec fn present_bytes(bytes: Seq<u8>) -> Option<Seq<u8>> {
    if bytes.len() == 0 {
        None
    } else {
        Some(bytes)
    }
}

/// A text, or nothing where it is empty.
pub open spec fn present_text(text: Seq<char>) -> Option<Seq<char>> {
    if text.len() == 0 {
        None
    } else {
        Some(text)
    }
}

/// The lower half of a number.
pub open spec fn low_half(n: u32) -> u16 {
    (n % 0x1_0000) as u16
}

/// A request on the wire. The port is not written.
pub open spec fn wire_request(req: HttpRequestModel) -> proto::http::RequestModel {
    proto::http::RequestModel {
        request_id: req.request_id,
        path: req.path,
        method: req.method,
        querystring: present_text(req.querystring),
        headers: req.headers,
        payload: present_bytes(req.payload),
        port: 0,
    }
}

/// A response on the wire.
pub open spec fn wire_response(res: HttpResponseModel) -> proto::http::ResponseModel {
    proto::http::ResponseModel {
        request_id: res.request_id,
        status_code: res.status_code as u32,
        headers: res.headers,
        payload: present_bytes(res.payload),
    }
}

/// The content of a WebSocket message on the wire.
pub open spec fn wire_content(msg: WebSocketMessageModel) -> proto::web_socket::MessageModel {
    match msg {
        WebSocketMessageModel::Text(data) => proto::web_socket::MessageModel::Text(data),
        WebSocketMessageModel::Binary(data) => proto::web_socket::MessageModel::Binary(data),
        WebSocketMessageModel::Ping(data) => proto::web_socket::MessageModel::Ping(data),
        WebSocketMessageModel::Pong(data) => proto::web_socket::MessageModel::Pong(data),
        WebSocketMessageModel::Close { code, reason } => proto::web_socket::MessageModel::Close(
            proto::web_socket::CloseModel { code: code as u32, reason },
        ),
    }
}

/// A message of one of the protocols on the wire.
pub open spec fn wire_protocol(protocol: ProtocolModel) -> proto::message::ProtocolModel {
    match protocol {
        ProtocolModel::Http(HttpModel::Request(req)) => proto::message::ProtocolModel::Http(
            proto::HttpModel {
                message: Some(proto::http::MessageModel::Request(wire_request(req))),
            },
        ),
        ProtocolModel::Http(HttpModel::Response(res)) => proto::message::ProtocolModel::Http(
            proto::HttpModel {
                message: Some(proto::http::MessageModel::Response(wire_response(res))),
            },
        ),
        ProtocolModel::WebSocket(ws) => proto::message::ProtocolModel::Ws(
            proto::WebSocketModel {
                socket_id: ws.socket_id,
                message: Some(wire_content(ws.message)),
            },
        ),
    }
}

/// The bytes of a message.
pub open spec fn message_bytes(protocol: ProtocolModel) -> Seq<u8> {
    <proto::Message as wire::WireMessage>::bytes_of(
        proto::MessageModel { protocol: Some(wire_protocol(protocol)) },
    )
}

/// The bytes, or nothing where there are none.
fn some_bytes(bytes: Vec<u8>) -> (r: Option<Vec<u8>>)
    ensures
        wire::bytes_option(r) == present_bytes(bytes@),
{
    if bytes.len() == 0 {
        None
    } else {
        Some(bytes)
    }
}

/// The text, or nothing where it is empty.
fn some_text(text: String) -> (r: Option<String>)
    ensures
        wire::string_option(r) == present_text(text@),
{
    if text.as_str().is_empty() {
        None
    } else {
        Some(text)
    }
}

/// A message of one of the protocols.
#[derive(Debug)]
pub struct ProtoMessage {
    protocol: Protocol,
}

impl View for ProtoMessage {
    type V = ProtocolModel;

    closed spec fn view(&self) -> ProtocolModel {
        self.protocol@
    }
}

impl ProtoMessage {
    pub fn new(protocol: Protocol) -> (r: Self)
        ensures
            r@ == protocol@,
    {
        Self { protocol }
    }

    pub fn protocol(self) -> (r: Protocol)
        ensures
            r@ == self@,
    {
        self.protocol
    }

    /// Writes the message as bytes, which always succeeds. The bytes are read as the message again,
    /// but for the port of a request, which is left out.
    pub fn encode(self) -> (r: Result<Vec<u8>, ProtoError>)
        ensures
            r matches Ok(bytes) && bytes@ == message_bytes(self@) && received(bytes@)
                == Received::Message(without_port(self@)),
            self@.wf(),
    {
        let protocol = match self.protocol {
            Protocol::Http(Http::Request(http_req)) => {
                proof {
                    use_type_invariant(&http_req.headers);
                }
                let proto_req = proto::http::Request {
                    request_id: http_req.request_id,
                    path: http_req.path,
                    method: http_req.method,
                    querystring: some_text(http_req.querystring),
                    headers: http_req.headers,
                    payload: some_bytes(http_req.payload),
                    port: 0,
                };
                proto::message::Protocol::Http(
                    proto::Http { message: Some(proto::http::Message::Request(proto_req)) },
                )
            },
            Protocol::Http(Http::Response(http_res)) => {
                proof {
                    use_type_invariant(&http_res.headers);
                }
                let proto_res = proto::http::Response {
                    request_id: http_res.request_id,
                    status_code: http_res.status_code as u32,
                    headers: http_res.headers,
                    payload: some_bytes(http_res.payload),
                };
                proto::message::Protocol::Http(
                    proto::Http { message: Some(proto::http::Message::Response(proto_res)) },
                )
            },
            Protocol::WebSocket(ws) => {
                let ws_message = match ws.message {
                    WebSocketMessage::Text(data) => proto::web_socket::Message::Text(data),
                    WebSocketMessage::Binary(data) => proto::web_socket::Message::Binary(data),
                    WebSocketMessage::Ping(data) => proto::web_socket::Message::Ping(data),
                    WebSocketMessage::Pong(data) => proto::web_socket::Message::Pong(data),
                    WebSocketMessage::Close { code, reason } => proto::web_socket::Message::Close(
                        proto::web_socket::Close { code: code as u32, reason },
                    ),
                };
                proto::message::Protocol::Ws(
                    proto::WebSocket { socket_id: ws.socket_id, message: Some(ws_message) },
                )
            },
        };
        let msg = proto::Message { protocol: Some(protocol) };
        assert(msg@.protocol == Some(wire_protocol(self@)));
        let bytes = wire::encode_to_vec(&msg);
        proof {
            assert(bytes.len() <= u64::MAX);
            law_message_survives_wire(self@);
        }
        Ok(bytes)
    }
}

/// The request that a request on the wire stands for. A missing query is empty, a missing payload
/// has no bytes, and of the port the lower half counts.
pub open spec fn request_of(req: proto::http::RequestModel) -> HttpRequestModel {
    HttpRequestModel {
        request_id: req.request_id,
        path: req.path,
        method: req.method,
        querystring: match req.querystring {
            Some(querystring) => querystring,
            None => Seq::empty(),
        },
        headers: req.headers,
        payload: match req.payload {
            Some(payload) => payload,
            None => Seq::empty(),
        },
        port: low_half(req.port),
    }
}

/// The response that a response on the wire stands for. A missing payload has no bytes, and of the
/// status the lower half counts.
pub open spec fn response_of(res: proto::http::ResponseModel) -> HttpResponseModel {
    HttpResponseModel {
        request_id: res.request_id,
        status_code: low_half(res.status_code),
        headers: res.headers,
        payload: match res.payload {
            Some(payload) => payload,
            None => Seq::empty(),
        },
    }
}

/// The content that a content on the wire stands for. Of the code of a closure the lower half
/// counts.
pub open spec fn content_of_wire(msg: proto::web_socket::MessageModel) -> WebSocketMessageModel {
    match msg {
        proto::web_socket::MessageModel::Text(data) => WebSocketMessageModel::Text(data),
        proto::web_socket::MessageModel::Binary(data) => WebSocketMessageModel::Binary(data),
        proto::web_socket::MessageModel::Ping(data) => WebSocketMessageModel::Ping(data),
        proto::web_socket::MessageModel::Pong(data) => WebSocketMessageModel::Pong(data),
        proto::web_socket::MessageModel::Close(close) => WebSocketMessageModel::Close {
            code: low_half(close.code),
            reason: close.reason,
        },
    }
}

/// The protocol of a message that lacks its content.
pub enum Missing {
    Http,
    WebSocket,
}

/// The error that tells of the missing content.
pub open spec fn is_missing(err: ProtoError, missing: Missing) -> bool {
    match missing {
        Missing::Http => err is EmptyHttpMessage,
        Missing::WebSocket => err is EmptyWsMessage,
    }
}

/// The message that a message on the wire stands for, unless it lacks its content.
pub open spec fn protocol_of(protocol: proto::message::ProtocolModel) -> Result<
    ProtocolModel,
    Missing,
> {
    match protocol {
        proto::message::ProtocolModel::Http(http) => match http.message {
            Some(proto::http::MessageModel::Request(req)) => Ok(
                ProtocolModel::Http(HttpModel::Request(request_of(req))),
            ),
            Some(proto::http::MessageModel::Response(res)) => Ok(
                ProtocolModel::Http(HttpModel::Response(response_of(res))),
            ),
            None => Err(Missing::Http),
        },
        proto::message::ProtocolModel::Ws(ws) => match ws.message {
            Some(msg) => Ok(
                ProtocolModel::WebSocket(
                    WebSocketModel { socket_id: ws.socket_id, message: content_of_wire(msg) },
                ),
            ),
            None => Err(Missing::WebSocket),
        },
    }
}

fn truncate(n: u32) -> (r: u16)
    ensures
        r == low_half(n),
{
    assert((n as u16) == (n % 0x1_0000) as u16) by (bit_vector);
    n as u16
}

impl From<proto::http::Request> for HttpRequest {
    fn from(value: proto::http::Request) -> (r: Self)
        ensures
            r@ == request_of(value@),
    {
        Self {
            request_id: value.request_id,
            path: value.path,
            method: value.method,
            querystring: match value.querystring {
                Some(querystring) => querystring,
                None => String::new(),
            },
            headers: value.headers,
            payload: match value.payload {
                Some(payload) => payload,
                None => Vec::new(),
            },
            port: truncate(value.port),
        }
    }
}

impl vstd::std_specs::convert::FromSpecImpl<proto::http::Request> for HttpRequest {
    open spec fn obeys_from_spec() -> bool {
        false
    }

    open spec fn from_spec(v: proto::http::Request) -> Self {
        arbitrary()
    }
}

impl From<proto::http::Response> for HttpResponse {
    fn from(value: proto::http::Response) -> (r: Self)
        ensures
            r@ == response_of(value@),
    {
        Self {
            request_id: value.request_id,
            status_code: truncate(value.status_code),
            headers: value.headers,
            payload: match value.payload {
                Some(payload) => payload,
                None => Vec::new(),
            },
        }
    }
}

impl vstd::std_specs::convert::FromSpecImpl<proto::http::Response> for HttpResponse {
    open spec fn obeys_from_spec() -> bool {
        false
    }

    open spec fn from_spec(v: proto::http::Response) -> Self {
        arbitrary()
    }
}

impl TryFrom<proto::WebSocket> for WebSocket {
    type Error = ProtoError;

    fn try_from(value: proto::WebSocket) -> (r: Result<Self, ProtoError>)
        ensures
            match r {
                Ok(ws) => value@.message matches Some(msg) && ws@ == (WebSocketModel {
                    socket_id: value@.socket_id,
                    message: content_of_wire(msg),
                }),
                Err(err) => value@.message is None && err is EmptyWsMessage,
            },
    {
        let message = match value.message {
            Some(proto::web_socket::Message::Text(data)) => WebSocketMessage::text(data),
            Some(proto::web_socket::Message::Binary(data)) => WebSocketMessage::binary(data),
            Some(proto::web_socket::Message::Ping(data)) => WebSocketMessage::ping(data),
            Some(proto::web_socket::Message::Pong(data)) => WebSocketMessage::pong(data),
            Some(proto::web_socket::Message::Close(close)) => WebSocketMessage::close(
                truncate(close.code),
                close.reason,
            ),
            None => {
                return Err(ProtoError::EmptyWsMessage);
            },
        };
        Ok(Self { socket_id: value.socket_id, message })
    }
}

impl vstd::std_specs::convert::TryFromSpecImpl<proto::WebSocket> for WebSocket {
    open spec fn obeys_try_from_spec() -> bool {
        false
    }

    open spec fn try_from_spec(v: proto::WebSocket) -> Result<Self, ProtoError> {
        arbitrary()
    }
}

impl TryFrom<proto::message::Protocol> for Protocol {
    type Error = ProtoError;

    fn try_from(value: proto::message::Protocol) -> (r: Result<Self, ProtoError>)
        ensures
            match r {
                Ok(protocol) => protocol_of(value@) == Ok::<ProtocolModel, Missing>(protocol@),
                Err(err) => protocol_of(value@) matches Err(missing) && is_missing(err, missing),
            },
    {
        match value {
            proto::message::Protocol::Http(http) => match http.message {
                Some(proto::http::Message::Request(req)) => Ok(
                    Protocol::Http(Http::Request(HttpRequest::from(req))),
                ),
                Some(proto::http::Message::Response(res)) => Ok(
                    Protocol::Http(Http::Response(HttpResponse::from(res))),
                ),
                None => Err(ProtoError::EmptyHttpMessage),
            },
            proto::message::Protocol::Ws(ws) => match WebSocket::try_from(ws) {
                Ok(ws) => Ok(Protocol::WebSocket(ws)),
                Err(err) => Err(err),
            },
        }
    }
}

impl vstd::std_specs::convert::TryFromSpecImpl<proto::message::Protocol> for Protocol {
    open spec fn obeys_try_from_spec() -> bool {
        false
    }

    open spec fn try_from_spec(v: proto::message::Protocol) -> Result<Self, ProtoError> {
        arbitrary()
    }
}

impl TryFrom<TungMessage> for ProtoMessage {
    type Error = ProtoError;

    fn try_from(tung_msg: TungMessage) -> (r: Result<Self, ProtoError>)
        ensures
            match r {
                Ok(msg) => content_of(tung_msg@) matches Some(message) && msg@
                    == ProtocolModel::WebSocket(
                    WebSocketModel { socket_id: Seq::empty(), message },
                ),
                Err(err) => content_of(tung_msg@) is None && err is WrongWsFrame,
            },
    {
        match WebSocketMessage::try_from(tung_msg) {
            Ok(message) => {
                let ws = WebSocket { socket_id: Vec::new(), message };
                assert(ws@.socket_id =~= Seq::empty());
                Ok(Self::new(Protocol::WebSocket(ws)))
            },
            Err(err) => Err(err),
        }
    }
}

impl vstd::std_specs::convert::TryFromSpecImpl<TungMessage> for ProtoMessage {
    open spec fn obeys_try_from_spec() -> bool {
        false
    }

    open spec fn try_from_spec(v: TungMessage) -> Result<Self, ProtoError> {
        arbitrary()
    }
}

/// What bytes hold that were received: no Protobuf message, a message without a protocol, a message
/// that lacks its content, or a message.
pub enum Received {
    Malformed,
    NoProtocol,
    Empty(Missing),
    Message(ProtocolModel),
}

/// What the bytes hold.
pub open spec fn received(bytes: Seq<u8>) -> Received {
    match wire::read_message::<proto::Message>(bytes) {
        Some(msg) => match msg.protocol {
            Some(protocol) => match protocol_of(protocol) {
                Ok(msg) => Received::Message(msg),
                Err(missing) => Received::Empty(missing),
            },
            None => Received::NoProtocol,
        },
        None => Received::Malformed,
    }
}

/// The result tells what was received.
pub open spec fn tells(r: Result<ProtoMessage, ProtoError>, received: Received) -> bool {
    match received {
        Received::Malformed => r matches Err(ProtoError::Decode(_)),
        Received::NoProtocol => false,
        Received::Empty(missing) => r matches Err(err) && is_missing(err, missing),
        Received::Message(protocol) => r matches Ok(msg) && msg@ == protocol,
    }
}

impl ProtoMessage {
    /// The message that a message on the wire stands for.
    pub fn from_wire(value: proto::Message) -> (r: Result<Self, ProtoError>)
        requires
            value@.protocol is Some,
        ensures
            value@.protocol matches Some(protocol) && match protocol_of(protocol) {
                Ok(protocol) => r matches Ok(msg) && msg@ == protocol,
                Err(missing) => r matches Err(err) && is_missing(err, missing),
            },
    {
        match Protocol::try_from(value.protocol.unwrap()) {
            Ok(protocol) => Ok(ProtoMessage::new(protocol)),
            Err(err) => Err(err),
        }
    }

    /// Reads a message from bytes. The bytes must not be those of a message without a protocol.
    pub fn decode(bytes: &[u8]) -> (r: Result<Self, ProtoError>)
        requires
            !(received(bytes@) is NoProtocol),
        ensures
            tells(r, received(bytes@)),
    {
        match wire::decode::<proto::Message>(bytes) {
            Ok(msg) => ProtoMessage::from_wire(msg),
            Err(err) => Err(ProtoError::Decode(err)),
        }
    }

    /// Reads a message from bytes. `None` for a message without a protocol.
    pub fn decode_checked(bytes: &[u8]) -> (r: Option<Result<Self, ProtoError>>)
        ensures
            match r {
                Some(r) => tells(r, received(bytes@)),
                None => received(bytes@) is NoProtocol,
            },
    {
        if let Ok(msg) = wire::decode::<proto::Message>(bytes) {
            if msg.protocol.is_none() {
                return None;
            }
        }
        Some(ProtoMessage::decode(bytes))
    }
}

/// The message without the port of a request.
pub open spec fn without_port(protocol: ProtocolModel) -> ProtocolModel {
    match protocol {
        ProtocolModel::Http(HttpModel::Request(req)) => ProtocolModel::Http(
            HttpModel::Request(HttpRequestModel { port: 0, ..req }),
        ),
        other => other,
    }
}

/// A message is received as it was written, but for the port of a request, which is received as
/// zero.
pub proof fn law_message_survives_wire(protocol: ProtocolModel)
    requires
        protocol.wf(),
        message_bytes(protocol).len() <= u64::MAX,
    ensures
        received(message_bytes(protocol)) == Received::Message(without_port(protocol)),
{
    let msg = proto::MessageModel { protocol: Some(wire_protocol(protocol)) };
    proto::law_message_round_trip(msg, wire::MAX_DEPTH);
    match protocol {
        ProtocolModel::Http(HttpModel::Request(req)) => {
            assert(request_of(wire_request(req)).querystring =~= req.querystring);
            assert(request_of(wire_request(req)).payload =~= req.payload);
        },
        ProtocolModel::Http(HttpModel::Response(res)) => {
            assert(response_of(wire_response(res)).payload =~= res.payload);
        },
        ProtocolModel::WebSocket(_) => {},
    }
}

/// The methods that a request can have.
#[derive(Clone, Copy, Debug, PartialEq, Eq, Structural)]
pub enum Method {
    Get,
    Delete,
    Head,
    Patch,
    Post,
    Put,
}

/// The method with a given name.
pub open spec fn method_named(name: Seq<char>) -> Option<Method> {
    if name == "GET"@ {
        Some(Method::Get)
    } else if name == "DELETE"@ {
        Some(Method::Delete)
    } else if name == "HEAD"@ {
        Some(Method::Head)
    } else if name == "PATCH"@ {
        Some(Method::Patch)
    } else if name == "POST"@ {
        Some(Method::Post)
    } else if name == "PUT"@ {
        Some(Method::Put)
    } else {
        None
    }
}

impl HttpRequestModel {
    /// The method of the request, whatever the case of its letters.
    pub open spec fn known_method(self) -> Option<Method> {
        method_named(text::ascii_upper(self.method))
    }

    /// Where the request goes.
    pub open spec fn local_url(self) -> Seq<char> {
        "ws://localhost:"@ + text::decimal(self.port as nat) + "/"@ + self.path + self.querystring
    }
}

/// The error tells of an unknown method, whose name it gives in upper case.
pub open spec fn is_wrong_method(err: ProtoError, method: Seq<char>) -> bool {
    err matches ProtoError::WrongHttpMethod(name) && name@ == text::ascii_upper(method)
}

/// A request that is ready to be sent by an HTTP client.
#[derive(Debug)]
pub struct ClientRequest {
    pub method: Method,
    pub url: Url,
    pub headers: HeaderMap<HeaderValue>,
    pub payload: Vec<u8>,
}

/// A request that is ready to open a WebSocket connection.
#[derive(Debug)]
pub struct UpgradeRequest {
    pub method: Method,
    pub uri: String,
    pub headers: HeaderMap<HeaderValue>,
}

impl HttpRequestModel {
    /// The outcome tells that the headers are too many for one request, which they can only be from
    /// a certain number on.
    pub open spec fn overflows<R>(self, r: Result<R, ProtoError>) -> bool {
        r matches Err(ProtoError::TooManyHeaders) && self.headers.len() > header_map::HEADER_ROOM
    }

    /// The outcome of getting the request ready for an HTTP client, given what was parsed of where
    /// it goes: the text and the query.
    pub open spec fn sends(
        self,
        parsed: Option<(Seq<char>, Option<Seq<char>>)>,
        r: Result<(Vec<u8>, ClientRequest), ProtoError>,
    ) -> bool {
        match parsed {
            None => r matches Err(ProtoError::ParseUrl(_)),
            Some((text, query)) => self.overflows(r) || match self.known_method() {
                None => r matches Err(err) && is_wrong_method(err, self.method),
                Some(method) => {
                    &&& r matches Ok((request_id, req))
                    &&& request_id@ == self.request_id
                    &&& req.method == method
                    &&& req.url@ == (UrlModel { text, query })
                    &&& header_map::header_values(req.headers) == header_map::collected(
                        self.headers,
                    )
                    &&& req.payload@ == self.payload
                },
            },
        }
    }

    /// The outcome of getting the request ready to open a WebSocket connection, given what was
    /// parsed of where it goes. Of several values of one header only the first is sent, and no
    /// payload.
    pub open spec fn upgrades(
        self,
        parsed: Option<Seq<char>>,
        r: Result<(Vec<u8>, UpgradeRequest), ProtoError>,
    ) -> bool {
        match self.known_method() {
            None => r matches Err(err) && is_wrong_method(err, self.method),
            Some(method) => self.overflows(r) || match parsed {
                None => r matches Err(ProtoError::Http(_)),
                Some(uri) => {
                    &&& r matches Ok((request_id, req))
                    &&& request_id@ == self.request_id
                    &&& req.method == method
                    &&& req.uri@ == uri
                    &&& header_map::header_values(req.headers) == header_map::first_values(
                        header_map::collected(self.headers),
                    )
                },
            },
        }
    }
}

/// The text of the URI that `http::request::Builder` takes from a text. `None` where it fails.
pub uninterp spec fn request_uri_text(input: Seq<char>) -> Option<Seq<char>>;

/// Calls `http::request::Builder::uri` and `body`. Whether a text is a URI, and how it is written
/// once parsed, is a function of the text, which is left to the name `request_uri_text`; nothing is
/// said of which error comes.
#[verifier::external_body]
fn request_uri(input: &str) -> (r: Result<String, HttpError>)
    ensures
        match r {
            Ok(uri) => request_uri_text(input@) == Some(uri@),
            Err(_) => request_uri_text(input@) is None,
        },
{
    let req = tungstenite::http::Request::builder().uri(input).body(())?;
    Ok(req.uri().to_string())
}

/// The name of the header that asks for a WebSocket connection.
pub open spec fn upgrade_header() -> Seq<char> {
    "Upgrade"@
}

impl HttpRequest {
    /// Whether the request asks for a WebSocket connection. The name of the header is told apart by
    /// case.
    pub fn is_connection_upgrade(&self) -> (r: bool)
        ensures
            r == vec_map::has_key(self@.headers, upgrade_header()),
    {
        self.headers.contains_key(&"Upgrade".to_owned())
    }

    /// Where the request goes.
    pub fn local_url(&self) -> (r: String)
        ensures
            r@ == self@.local_url(),
    {
        let mut url = "ws://localhost:".to_owned();
        url.append(text::to_decimal(self.port).as_str());
        url.append("/");
        url.append(self.path.as_str());
        url.append(self.querystring.as_str());
        url
    }

    fn known_method(&self) -> (r: Result<Method, ProtoError>)
        ensures
            match self@.known_method() {
                Some(method) => r matches Ok(m) && m == method,
                None => r matches Err(err) && is_wrong_method(err, self@.method),
            },
    {
        let name = self.method.as_str().to_ascii_uppercase();
        if name == "GET".to_owned() {
            Ok(Method::Get)
        } else if name == "DELETE".to_owned() {
            Ok(Method::Delete)
        } else if name == "HEAD".to_owned() {
            Ok(Method::Head)
        } else if name == "PATCH".to_owned() {
            Ok(Method::Patch)
        } else if name == "POST".to_owned() {
            Ok(Method::Post)
        } else if name == "PUT".to_owned() {
            Ok(Method::Put)
        } else {
            Err(ProtoError::WrongHttpMethod(name))
        }
    }

    /// The request for an HTTP client, given the URL that was parsed, with the ID under which the
    /// response is reported.
    pub fn send_to(self, url: Result<Url, url::ParseError>) -> (r: Result<
        (Vec<u8>, ClientRequest),
        ProtoError,
    >)
        ensures
            self@.sends(
                match url {
                    Ok(url) => Some((url@.text, url@.query)),
                    Err(_) => None,
                },
                r,
            ),
            url matches Err(parse) ==> r matches Err(ProtoError::ParseUrl(err)) && err == parse,
    {
        let url = match url {
            Ok(url) => url,
            Err(err) => {
                return Err(ProtoError::ParseUrl(err));
            },
        };
        let headers = match header_map::hashmap_to_headermap(&self.headers) {
            Some(headers) => headers,
            None => {
                return Err(ProtoError::TooManyHeaders);
            },
        };
        let method = self.known_method()?;
        Ok((self.request_id, ClientRequest { method, url, headers, payload: self.payload }))
    }

    /// The request for an HTTP client, with the ID under which the response is reported.
    pub fn send(self) -> (r: Result<(Vec<u8>, ClientRequest), ProtoError>)
        ensures
            self@.sends(web_url::parsed_url(self@.local_url()), r),
    {
        let url = Url::parse(self.local_url().as_str());
        self.send_to(url)
    }

    /// The request that opens a WebSocket connection, given the URI that was parsed, with the ID of
    /// the connection. Of several values of one header only the first is sent, and no payload.
    pub fn upgrade_to(self, uri: Result<String, HttpError>) -> (r: Result<
        (Vec<u8>, UpgradeRequest),
        ProtoError,
    >)
        ensures
            self@.upgrades(
                match uri {
                    Ok(uri) => Some(uri@),
                    Err(_) => None,
                },
                r,
            ),
            match (uri, r) {
                (Err(http), Err(ProtoError::Http(err))) => err == http,
                _ => true,
            },
    {
        let method = self.known_method()?;
        let headers = match header_map::first_headers(&self.headers) {
            Some(headers) => headers,
            None => {
                return Err(ProtoError::TooManyHeaders);
            },
        };
        match uri {
            Ok(uri) => Ok((self.request_id, UpgradeRequest { method, uri, headers })),
            Err(err) => Err(ProtoError::Http(err)),
        }
    }

    /// The request that opens a WebSocket connection, with the ID of the connection.
    pub fn upgrade(self) -> (r: Result<(Vec<u8>, UpgradeRequest), ProtoError>)
        ensures
            self@.upgrades(request_uri_text(self@.local_url()), r),
    {
        let uri = request_uri(self.local_url().as_str());
        self.upgrade_to(uri)
    }
}

/// The response with which a WebSocket connection is opened.
#[derive(Debug)]
pub struct UpgradeResponse {
    pub status_code: u16,
    pub headers: HeaderMap<HeaderValue>,
    pub body: Option<Vec<u8>>,
}

/// A WebSocket connection that was opened on request, over the stream `S`.
#[derive(Debug)]
pub struct HttpUpgrade<S> {
    request_id: Vec<u8>,
    ws_stream_ttyd: S,
    http_res: UpgradeResponse,
}

impl<S> HttpUpgrade<S> {
    pub closed spec fn request_id(self) -> Seq<u8> {
        self.request_id@
    }

    pub closed spec fn ws_stream_ttyd(self) -> S {
        self.ws_stream_ttyd
    }

    pub closed spec fn http_res(self) -> UpgradeResponse {
        self.http_res
    }

    pub fn new(request_id: Vec<u8>, ws_stream_ttyd: S, http_res: UpgradeResponse) -> (r: Self)
        ensures
            r.request_id() == request_id@,
            r.ws_stream_ttyd() == ws_stream_ttyd,
            r.http_res() == http_res,
    {
        Self { request_id, ws_stream_ttyd, http_res }
    }

    pub fn into_inner(self) -> (r: (Vec<u8>, S, UpgradeResponse))
        ensures
            r.0@ == self.request_id(),
            r.1 == self.ws_stream_ttyd(),
            r.2 == self.http_res(),
    {
        (self.request_id, self.ws_stream_ttyd, self.http_res)
    }
}

/// The connection that was opened on request, given what came of opening it.
pub fn upgrade_opened<S>(
    request_id: Vec<u8>,
    opened: Result<(S, UpgradeResponse), TungError>,
) -> (r: Result<HttpUpgrade<S>, ProtoError>)
    ensures
        match opened {
            Ok((stream, res)) => r matches Ok(upgrade) && upgrade.request_id() == request_id@
                && upgrade.ws_stream_ttyd() == stream && upgrade.http_res() == res,
            Err(err) => r matches Err(ProtoError::WebSocketConnect(e)) && e == err,
        },
{
    match opened {
        Ok((stream, res)) => Ok(HttpUpgrade::new(request_id, stream, res)),
        Err(err) => Err(ProtoError::WebSocketConnect(err)),
    }
}

/// The response `R` that came to a request, given what came of performing it.
pub fn request_answered<R>(request_id: Vec<u8>, answered: Result<R, ReqwestError>) -> (r: Result<
    (Vec<u8>, R),
    ProtoError,
>)
    ensures
        match answered {
            Ok(res) => r matches Ok((id, http_res)) && id@ == request_id@ && http_res == res,
            Err(err) => r matches Err(ProtoError::Reqwest(e)) && e == err,
        },
{
    match answered {
        Ok(res) => Ok((request_id, res)),
        Err(err) => Err(ProtoError::Reqwest(err)),
    }
}

/// A content goes on the wire as its kind, with its data, and comes off it as the same kind with
/// the same data. Of the code of a closure the lower half comes off.
pub proof fn law_content_keeps_its_kind_on_the_wire(
    text: Seq<char>,
    data: Seq<u8>,
    code: u16,
    wide: u32,
    reason: Option<Seq<char>>,
)
    ensures
        wire_content(WebSocketMessageModel::Text(text)) == proto::web_socket::MessageModel::Text(
            text,
        ),
        wire_content(WebSocketMessageModel::Binary(data))
            == proto::web_socket::MessageModel::Binary(data),
        wire_content(WebSocketMessageModel::Ping(data)) == proto::web_socket::MessageModel::Ping(
            data,
        ),
        wire_content(WebSocketMessageModel::Pong(data)) == proto::web_socket::MessageModel::Pong(
            data,
        ),
        wire_content(WebSocketMessageModel::Close { code, reason })
            == proto::web_socket::MessageModel::Close(
            proto::web_socket::CloseModel { code: code as u32, reason },
        ),
        content_of_wire(proto::web_socket::MessageModel::Text(text))
            == WebSocketMessageModel::Text(text),
        content_of_wire(proto::web_socket::MessageModel::Binary(data))
            == WebSocketMessageModel::Binary(data),
        content_of_wire(proto::web_socket::MessageModel::Ping(data))
            == WebSocketMessageModel::Ping(data),
        content_of_wire(proto::web_socket::MessageModel::Pong(data))
            == WebSocketMessageModel::Pong(data),
        content_of_wire(
            proto::web_socket::MessageModel::Close(
                proto::web_socket::CloseModel { code: wide, reason },
            ),
        ) matches WebSocketMessageModel::Close { code: c, reason: r } && c as int == wide as int
            % 65536 && r == reason,
{
}

/// The lower half of a number that fits in it is the number, and numbers that differ by a multiple
/// of 65536 have the same.
pub proof fn law_low_half(n: u32, m: u32)
    ensures
        n <= 65535 ==> low_half(n) as int == n as int,
        low_half(n) == low_half(m) <==> (n as int - m as int) % 65536 == 0,
{
}

/// A request goes on the wire member by member. An empty query and an empty payload are left out,
/// and so is the port.
pub proof fn law_request_goes_on_the_wire(req: HttpRequestModel)
    ensures
        wire_request(req).request_id == req.request_id,
        wire_request(req).path == req.path,
        wire_request(req).method == req.method,
        wire_request(req).headers == req.headers,
        wire_request(req).querystring is None <==> req.querystring.len() == 0,
        wire_request(req).querystring matches Some(query) ==> query == req.querystring,
        wire_request(req).payload is None <==> req.payload.len() == 0,
        wire_request(req).payload matches Some(payload) ==> payload == req.payload,
        wire_request(req).port == 0,
{
}

/// A request comes off the wire member by member. A missing query and a missing payload are empty,
/// and of the port the lower half counts.
pub proof fn law_request_comes_off_the_wire(req: proto::http::RequestModel)
    ensures
        request_of(req).request_id == req.request_id,
        request_of(req).path == req.path,
        request_of(req).method == req.method,
        request_of(req).headers == req.headers,
        req.querystring matches Some(query) ==> request_of(req).querystring == query,
        req.querystring is None ==> request_of(req).querystring.len() == 0,
        req.payload matches Some(payload) ==> request_of(req).payload == payload,
        req.payload is None ==> request_of(req).payload.len() == 0,
        request_of(req).port as int == req.port as int % 65536,
{
}

/// A response goes on the wire member by member. An empty payload is left out.
pub proof fn law_response_goes_on_the_wire(res: HttpResponseModel)
    ensures
        wire_response(res).request_id == res.request_id,
        wire_response(res).status_code as int == res.status_code as int,
        wire_response(res).headers == res.headers,
        wire_response(res).payload is None <==> res.payload.len() == 0,
        wire_response(res).payload matches Some(payload) ==> payload == res.payload,
{
}

/// A response comes off the wire member by member. A missing payload is empty, and of the status the
/// lower half counts.
pub proof fn law_response_comes_off_the_wire(res: proto::http::ResponseModel)
    ensures
        response_of(res).request_id == res.request_id,
        response_of(res).status_code as int == res.status_code as int % 65536,
        response_of(res).headers == res.headers,
        res.payload matches Some(payload) ==> response_of(res).payload == payload,
        res.payload is None ==> response_of(res).payload.len() == 0,
{
}

/// A message goes on the wire under its own protocol, with its content.
pub proof fn law_protocol_goes_on_the_wire(
    req: HttpRequestModel,
    res: HttpResponseModel,
    ws: WebSocketModel,
)
    ensures
        wire_protocol(ProtocolModel::Http(HttpModel::Request(req))) matches
            proto::message::ProtocolModel::Http(http) && http.message == Some(
            proto::http::MessageModel::Request(wire_request(req)),
        ),
        wire_protocol(ProtocolModel::Http(HttpModel::Response(res))) matches
            proto::message::ProtocolModel::Http(http) && http.message == Some(
            proto::http::MessageModel::Response(wire_response(res)),
        ),
        wire_protocol(ProtocolModel::WebSocket(ws)) matches proto::message::ProtocolModel::Ws(m)
            && m.socket_id == ws.socket_id && m.message == Some(wire_content(ws.message)),
{
}

/// What bytes are received as: a request as that request, a response as that response, and the
/// content of a WebSocket message as that content, under the ID of its connection. A message without
/// content, one without a protocol, and bytes that are no message are told apart.
pub proof fn law_received(
    bytes: Seq<u8>,
    req: proto::http::RequestModel,
    res: proto::http::ResponseModel,
    id: Seq<u8>,
    content: proto::web_socket::MessageModel,
)
    ensures
        ({
            let read = wire::read_message::<proto::Message>(bytes);
            let http = |m: Option<proto::http::MessageModel>|
                Some(
                    proto::MessageModel {
                        protocol: Some(
                            proto::message::ProtocolModel::Http(proto::HttpModel { message: m }),
                        ),
                    },
                );
            let ws = |m: Option<proto::web_socket::MessageModel>|
                Some(
                    proto::MessageModel {
                        protocol: Some(
                            proto::message::ProtocolModel::Ws(
                                proto::WebSocketModel { socket_id: id, message: m },
                            ),
                        ),
                    },
                );
            &&& read == http(Some(proto::http::MessageModel::Request(req))) ==> received(bytes)
                == Received::Message(ProtocolModel::Http(HttpModel::Request(request_of(req))))
            &&& read == http(Some(proto::http::MessageModel::Response(res))) ==> received(bytes)
                == Received::Message(ProtocolModel::Http(HttpModel::Response(response_of(res))))
            &&& read == http(None) ==> received(bytes) == Received::Empty(Missing::Http)
            &&& read == ws(Some(content)) ==> received(bytes) == Received::Message(
                ProtocolModel::WebSocket(
                    WebSocketModel { socket_id: id, message: content_of_wire(content) },
                ),
            )
            &&& read == ws(None) ==> received(bytes) == Received::Empty(Missing::WebSocket)
            &&& read == Some(proto::MessageModel { protocol: None }) <==> received(
                bytes,
            ) is NoProtocol
            &&& read is None <==> received(bytes) is Malformed
        }),
{
}

/// What reading bytes tells: the message that was received, that its content is missing and of
/// which protocol it is, or that the bytes are no message.
pub proof fn law_received_is_told(
    r: Result<ProtoMessage, ProtoError>,
    bytes: Seq<u8>,
    protocol: ProtocolModel,
)
    requires
        tells(r, received(bytes)),
    ensures
        received(bytes) == Received::Message(protocol) <==> (r matches Ok(msg)
            && msg@ == protocol),
        received(bytes) == Received::Empty(Missing::Http) <==> r matches Err(
            ProtoError::EmptyHttpMessage,
        ),
        received(bytes) == Received::Empty(Missing::WebSocket) <==> r matches Err(
            ProtoError::EmptyWsMessage,
        ),
        received(bytes) is Malformed <==> r matches Err(ProtoError::Decode(_)),
{
}

/// Only the port of a request is lost on the way, and only of a request.
pub proof fn law_only_the_port_is_lost(protocol: ProtocolModel)
    ensures
        match protocol {
            ProtocolModel::Http(HttpModel::Request(req)) => {
                &&& without_port(protocol) matches ProtocolModel::Http(HttpModel::Request(r))
                &&& r.request_id == req.request_id && r.path == req.path && r.method == req.method
                &&& r.querystring == req.querystring && r.headers == req.headers
                &&& r.payload == req.payload && r.port == 0
            },
            _ => without_port(protocol) == protocol,
        },
{
}

/// A method is known by its name, whatever the case of its letters, and no other name is one.
pub proof fn law_methods(req: HttpRequestModel)
    ensures
        ({
            let name = text::ascii_upper(req.method);
            &&& req.known_method() == Some(Method::Get) <==> name == seq!['G', 'E', 'T']
            &&& req.known_method() == Some(Method::Delete) <==> name == seq![
                'D',
                'E',
                'L',
                'E',
                'T',
                'E',
            ]
            &&& req.known_method() == Some(Method::Head) <==> name == seq!['H', 'E', 'A', 'D']
            &&& req.known_method() == Some(Method::Patch) <==> name == seq![
                'P',
                'A',
                'T',
                'C',
                'H',
            ]
            &&& req.known_method() == Some(Method::Post) <==> name == seq!['P', 'O', 'S', 'T']
            &&& req.known_method() == Some(Method::Put) <==> name == seq!['P', 'U', 'T']
        }),
{
    reveal_strlit("GET");
    reveal_strlit("DELETE");
    reveal_strlit("HEAD");
    reveal_strlit("PATCH");
    reveal_strlit("POST");
    reveal_strlit("PUT");
    assert("GET"@ =~= seq!['G', 'E', 'T']);
    assert("DELETE"@ =~= seq!['D', 'E', 'L', 'E', 'T', 'E']);
    assert("HEAD"@ =~= seq!['H', 'E', 'A', 'D']);
    assert("PATCH"@ =~= seq!['P', 'A', 'T', 'C', 'H']);
    assert("POST"@ =~= seq!['P', 'O', 'S', 'T']);
    assert("PUT"@ =~= seq!['P', 'U', 'T']);
    assert("GET"@.len() == 3 && "DELETE"@.len() == 6 && "HEAD"@.len() == 4);
    assert("PATCH"@.len() == 5 && "POST"@.len() == 4 && "PUT"@.len() == 3);
    assert("GET"@[0] == 'G' && "PUT"@[0] == 'P' && "HEAD"@[0] == 'H' && "POST"@[0] == 'P');
}

/// Requests whose methods differ in the case of their letters alone have the same method.
pub proof fn law_methods_do_not_count_case(a: HttpRequestModel, b: HttpRequestModel)
    requires
        a.method.len() == b.method.len(),
        forall|i: int|
            #![trigger a.method[i]]
            #![trigger b.method[i]]
            0 <= i < a.method.len() ==> a.method[i] == b.method[i] || ('a' <= a.method[i] <= 'z'
                && b.method[i] == (a.method[i] as u32 - 32) as char) || ('a' <= b.method[i] <= 'z'
                && a.method[i] == (b.method[i] as u32 - 32) as char),
    ensures
        a.known_method() == b.known_method(),
{
    assert(text::ascii_upper(a.method) =~= text::ascii_upper(b.method));
}

/// A request goes to its port on this machine, and there to its path with its query behind it.
pub proof fn law_local_url(req: HttpRequestModel)
    ensures
        req.local_url() == "ws://localhost:"@ + text::decimal(req.port as nat) + "/"@ + req.path
            + req.querystring,
        req.local_url().take("ws://localhost:"@.len() as int) == "ws://localhost:"@,
        req.local_url().skip(req.local_url().len() - (req.path.len() + req.querystring.len()))
            == req.path + req.querystring,
{
    let url = req.local_url();
    assert(url.take("ws://localhost:"@.len() as int) =~= "ws://localhost:"@);
    assert(url.skip(url.len() - (req.path.len() + req.querystring.len())) =~= req.path
        + req.querystring);
}

/// Where a request goes tells its port, and its path with its query.
pub proof fn law_local_url_tells_requests_apart(a: HttpRequestModel, b: HttpRequestModel)
    requires
        a.local_url() == b.local_url(),
    ensures
        a.port == b.port,
        a.path + a.querystring == b.path + b.querystring,
{
    reveal_strlit("/");
    let front = "ws://localhost:"@;
    let da = text::decimal(a.port as nat);
    let db = text::decimal(b.port as nat);
    let ra = a.path + a.querystring;
    let rb = b.path + b.querystring;
    let ua = a.local_url().skip(front.len() as int);
    assert("/"@ =~= seq!['/']);
    assert(ua =~= da + seq!['/'] + ra);
    assert(ua =~= db + seq!['/'] + rb);
    text::law_decimal(a.port as nat);
    text::law_decimal(b.port as nat);
    assert(ua[da.len() as int] == '/' && ua[db.len() as int] == '/');
    if da.len() < db.len() {
        assert(ua[da.len() as int] == db[da.len() as int]);
    }
    if db.len() < da.len() {
        assert(ua[db.len() as int] == da[db.len() as int]);
    }
    assert(ua.take(da.len() as int) =~= da);
    assert(ua.take(da.len() as int) =~= db);
    assert(ua.skip((da.len() + 1) as int) =~= ra);
    assert(ua.skip((da.len() + 1) as int) =~= rb);
    text::law_decimal_tells_numbers_apart(a.port as nat, b.port as nat);
}

/// A request for an HTTP client keeps the ID, the whole payload and all well-formed headers of the
/// request, and goes to the URL that was parsed. It is there wherever the URL is one, the method is
/// known, and the headers are not too many.
pub proof fn law_request_is_sent(
    req: HttpRequestModel,
    text: Seq<char>,
    query: Option<Seq<char>>,
    r: Result<(Vec<u8>, ClientRequest), ProtoError>,
    name: Seq<char>,
)
    requires
        req.sends(Some((text, query)), r),
        req.known_method() is Some,
        req.headers.len() <= 6554,
    ensures
        ({
            let valid = req.headers.filter(
                |h: (Seq<char>, Seq<char>)|
                    header_map::normal_name(h.0) == Some(name) && header_map::is_value(
                        vstd::utf8::encode_utf8(h.1),
                    ),
            );
            &&& r matches Ok((id, sent))
            &&& id@ == req.request_id
            &&& Some(sent.method) == req.known_method()
            &&& sent.url@.text == text
            &&& sent.url@.query == query
            &&& sent.payload@ == req.payload
            &&& header_map::header_values(sent.headers).contains_key(name) <==> valid.len() > 0
            &&& valid.len() > 0 ==> header_map::header_values(sent.headers)[name].len()
                == valid.len()
            &&& forall|i: int|
                0 <= i < valid.len() ==> #[trigger] header_map::header_values(
                    sent.headers,
                )[name][i] == vstd::utf8::encode_utf8(valid[i].1)
        }),
{
    header_map::law_collected_are_the_valid(req.headers, name);
}

/// A request that opens a WebSocket connection keeps the ID and the method of the request, and goes
/// to the URI that was parsed. Of the well-formed headers of one name it keeps the first.
pub proof fn law_request_opens_connection(
    req: HttpRequestModel,
    uri: Seq<char>,
    r: Result<(Vec<u8>, UpgradeRequest), ProtoError>,
    name: Seq<char>,
)
    requires
        req.upgrades(Some(uri), r),
        req.known_method() is Some,
        req.headers.len() <= 6554,
    ensures
        ({
            let valid = req.headers.filter(
                |h: (Seq<char>, Seq<char>)|
                    header_map::normal_name(h.0) == Some(name) && header_map::is_value(
                        vstd::utf8::encode_utf8(h.1),
                    ),
            );
            &&& r matches Ok((id, sent))
            &&& id@ == req.request_id
            &&& Some(sent.method) == req.known_method()
            &&& sent.uri@ == uri
            &&& header_map::header_values(sent.headers).contains_key(name) <==> valid.len() > 0
            &&& valid.len() > 0 ==> header_map::header_values(sent.headers)[name].len() == 1
                && header_map::header_values(sent.headers)[name][0] == vstd::utf8::encode_utf8(
                valid[0].1,
            )
        }),
{
    header_map::law_collected_are_the_valid(req.headers, name);
    header_map::law_first_values(header_map::collected(req.headers), name);
    let valid = req.headers.filter(
        |h: (Seq<char>, Seq<char>)|
            header_map::normal_name(h.0) == Some(name) && header_map::is_value(
                vstd::utf8::encode_utf8(h.1),
            ),
    );
    if valid.len() > 0 {
        assert(header_map::collected(req.headers)[name][0] == vstd::utf8::encode_utf8(valid[0].1));
    }
}

/// A request is refused where its URL is malformed or its method is not known, and the error says
/// so, with the name of the method in upper case. The URL is told before the method of a request
/// that is sent, and the method before the URI of one that opens a connection. Nothing else refuses
/// a request whose headers are not too many.
pub proof fn law_request_is_refused(
    req: HttpRequestModel,
    parsed: Option<(Seq<char>, Option<Seq<char>>)>,
    sent: Result<(Vec<u8>, ClientRequest), ProtoError>,
    uri: Option<Seq<char>>,
    opened: Result<(Vec<u8>, UpgradeRequest), ProtoError>,
)
    requires
        req.sends(parsed, sent),
        req.upgrades(uri, opened),
        req.headers.len() <= 6554,
    ensures
        sent is Err <==> parsed is None || req.known_method() is None,
        parsed is None ==> sent matches Err(ProtoError::ParseUrl(_)),
        parsed is Some && req.known_method() is None ==> (sent matches Err(
            ProtoError::WrongHttpMethod(name),
        ) && name@ == text::ascii_upper(req.method)),
        opened is Err <==> uri is None || req.known_method() is None,
        req.known_method() is None ==> (opened matches Err(ProtoError::WrongHttpMethod(name))
            && name@ == text::ascii_upper(req.method)),
        req.known_method() is Some && uri is None ==> opened matches Err(ProtoError::Http(_)),
{
}

/// The bytes of a message hold that message, under its protocol.
pub proof fn law_message_bytes(protocol: ProtocolModel)
    requires
        protocol.wf(),
        message_bytes(protocol).len() <= u64::MAX,
    ensures
        wire::read_message::<proto::Message>(message_bytes(protocol)) == Some(
            proto::MessageModel { protocol: Some(wire_protocol(protocol)) },
        ),
{
    proto::law_message_round_trip(
        proto::MessageModel { protocol: Some(wire_protocol(protocol)) },
        wire::MAX_DEPTH,
    );
}

/// A message views as its protocol and its kind.
pub proof fn law_messages_view_as_their_kind(req: HttpRequest, res: HttpResponse, ws: WebSocket)
    ensures
        Protocol::Http(Http::Request(req))@ == ProtocolModel::Http(HttpModel::Request(req@)),
        Protocol::Http(Http::Response(res))@ == ProtocolModel::Http(HttpModel::Response(res@)),
        Protocol::WebSocket(ws)@ == ProtocolModel::WebSocket(ws@),
{
}

} // verus!
