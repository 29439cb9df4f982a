//! The Protobuf messages exchanged with the remote host, as they stand on the wire.
//!
//! The fields of a message are numbered from one, in the order in which the message lists them.

use prost::DecodeError;
use vstd::prelude::*;
use vstd::utf8::*;

use crate::wire;
use crate::wire::{WireMessage, WireType};

pub mod http;
pub mod message;
pub mod web_socket;

verus! {

/// What an HTTP exchange on the wire holds.
pub struct HttpModel {
    pub message: Option<http::MessageModel>,
}

/// An HTTP exchange on the wire: a request or a response, if any.
#[derive(Debug)]
pub struct Http {
    pub message: Option<http::Message>,
}

impl HttpModel {
    /// Header names occur once.
    pub open spec fn wf(self) -> bool {
        match self.message {
            Some(m) => m.wf(),
            None => true,
        }
    }
}

impl View for Http {
    type V = HttpModel;

    open spec fn view(&self) -> HttpModel {
        HttpModel {
            message: match self.message {
                Some(m) => Some(m@),
                None => None,
            },
        }
    }
}

impl WireMessage for Http {
    open spec fn initial() -> HttpModel {
        HttpModel { message: None }
    }

    open spec fn read_field(
        m: HttpModel,
        tag: u32,
        wire: WireType,
        s: Seq<u8>,
        depth: u32,
    ) -> Option<(HttpModel, Seq<u8>)> {
        if tag == 1 {
            let before = match m.message {
                Some(http::MessageModel::Request(v)) => v,
                _ => http::Request::initial(),
            };
            match wire::read_nested::<http::Request>(before, wire, s, depth) {
                Some((v, rest)) => Some(
                    (HttpModel { message: Some(http::MessageModel::Request(v)) }, rest),
                ),
                None => None,
            }
        } else if tag == 2 {
            let before = match m.message {
                Some(http::MessageModel::Response(v)) => v,
                _ => http::Response::initial(),
            };
            match wire::read_nested::<http::Response>(before, wire, s, depth) {
                Some((v, rest)) => Some(
                    (HttpModel { message: Some(http::MessageModel::Response(v)) }, rest),
                ),
                None => None,
            }
        } else {
            match wire::skipped(tag, wire, s, depth) {
                Some(rest) => Some((m, rest)),
                None => None,
            }
        }
    }

    open spec fn bytes_of(m: HttpModel) -> Seq<u8> {
        match m.message {
            Some(http::MessageModel::Request(v)) => wire::bytes_field(1, http::Request::bytes_of(v)),
            Some(http::MessageModel::Response(v)) => wire::bytes_field(
                2,
                http::Response::bytes_of(v),
            ),
            None => Seq::empty(),
        }
    }

    fn empty() -> (r: Self) {
        Http { message: None }
    }

    fn merge_field<'a>(self, tag: u32, wire: WireType, buf: &'a [u8], depth: u32) -> (r: Result<
        (Self, &'a [u8]),
        DecodeError,
    >) {
        if tag == 1 {
            let before = match self.message {
                Some(http::Message::Request(v)) => v,
                _ => http::Request::empty(),
            };
            let (v, rest) = wire::decode_nested(before, wire, buf, depth)?;
            Ok((Http { message: Some(http::Message::Request(v)) }, rest))
        } else if tag == 2 {
            let before = match self.message {
                Some(http::Message::Response(v)) => v,
                _ => http::Response::empty(),
            };
            let (v, rest) = wire::decode_nested(before, wire, buf, depth)?;
            Ok((Http { message: Some(http::Message::Response(v)) }, rest))
        } else {
            let rest = wire::skip_field(tag, wire, buf, depth)?;
            Ok((self, rest))
        }
    }

    fn encode_raw(&self, buf: &mut Vec<u8>) {
        match &self.message {
            Some(http::Message::Request(v)) => wire::encode_nested(1, v, buf),
            Some(http::Message::Response(v)) => wire::encode_nested(2, v, buf),
            None => {},
        }
    }
}

/// An HTTP exchange is read back as it was written, where two more levels may nest.
pub proof fn law_http_round_trip(m: HttpModel, depth: u32)
    requires
        m.wf(),
        2 <= depth,
        Http::bytes_of(m).len() <= u64::MAX,
    ensures
        wire::read_fields::<Http>(Http::initial(), Http::bytes_of(m), depth) == Some(m),
{
    let none = Seq::<u8>::empty();
    match m.message {
        Some(http::MessageModel::Request(v)) => {
            let body = http::Request::bytes_of(v);
            http::law_request_round_trip(v, (depth - 1) as u32);
            wire::lemma_bytes_then_rest::<Http>(Http::initial(), 1, body, m, none, depth);
            assert(wire::bytes_field(1, body) + none =~= wire::bytes_field(1, body));
        },
        Some(http::MessageModel::Response(v)) => {
            let body = http::Response::bytes_of(v);
            http::law_response_round_trip(v, (depth - 1) as u32);
            wire::lemma_bytes_then_rest::<Http>(Http::initial(), 2, body, m, none, depth);
            assert(wire::bytes_field(2, body) + none =~= wire::bytes_field(2, body));
        },
        None => {},
    }
    assert(wire::read_fields::<Http>(m, none, depth) == Some(m));
}

/// What a WebSocket message on the wire holds.
pub struct WebSocketModel {
    pub socket_id: Seq<u8>,
    pub message: Option<web_socket::MessageModel>,
}

/// A WebSocket message on the wire, and the connection it belongs to.
#[derive(Debug)]
pub struct WebSocket {
    pub socket_id: Vec<u8>,
    pub message: Option<web_socket::Message>,
}

impl View for WebSocket {
    type V = WebSocketModel;

    open spec fn view(&self) -> WebSocketModel {
        WebSocketModel {
            socket_id: self.socket_id@,
            message: match self.message {
                Some(m) => Some(m@),
                None => None,
            },
        }
    }
}

/// The bytes of the payload of a WebSocket message.
pub open spec fn payload_bytes(m: Option<web_socket::MessageModel>) -> Seq<u8> {
    match m {
        Some(web_socket::MessageModel::Text(v)) => wire::string_field(2, v),
        Some(web_socket::MessageModel::Binary(v)) => wire::bytes_field(3, v),
        Some(web_socket::MessageModel::Ping(v)) => wire::bytes_field(4, v),
        Some(web_socket::MessageModel::Pong(v)) => wire::bytes_field(5, v),
        Some(web_socket::MessageModel::Close(v)) => wire::bytes_field(
            6,
            web_socket::Close::bytes_of(v),
        ),
        None => Seq::empty(),
    }
}

impl WireMessage for WebSocket {
    open spec fn initial() -> WebSocketModel {
        WebSocketModel { socket_id: Seq::empty(), message: None }
    }

    open spec fn read_field(
        m: WebSocketModel,
        tag: u32,
        wire: WireType,
        s: Seq<u8>,
        depth: u32,
    ) -> Option<(WebSocketModel, Seq<u8>)> {
        if tag == 1 {
            match wire::read_bytes(wire, s) {
                Some((v, rest)) => Some((WebSocketModel { socket_id: v, ..m }, rest)),
                None => None,
            }
        } else if tag == 2 {
            match wire::read_string(wire, s) {
                Some((v, rest)) => Some(
                    (
                        WebSocketModel { message: Some(web_socket::MessageModel::Text(v)), ..m },
                        rest,
                    ),
                ),
                None => None,
            }
        } else if tag == 3 {
            match wire::read_bytes(wire, s) {
                Some((v, rest)) => Some(
                    (
                        WebSocketModel { message: Some(web_socket::MessageModel::Binary(v)), ..m },
                        rest,
                    ),
                ),
                None => None,
            }
        } else if tag == 4 {
            match wire::read_bytes(wire, s) {
                Some((v, rest)) => Some(
                    (
                        WebSocketModel { message: Some(web_socket::MessageModel::Ping(v)), ..m },
                        rest,
                    ),
                ),
                None => None,
            }
        } else if tag == 5 {
            match wire::read_bytes(wire, s) {
                Some((v, rest)) => Some(
                    (
                        WebSocketModel { message: Some(web_socket::MessageModel::Pong(v)), ..m },
                        rest,
                    ),
                ),
                None => None,
            }
        } else if tag == 6 {
            let before = match m.message {
                Some(web_socket::MessageModel::Close(v)) => v,
                _ => web_socket::Close::initial(),
            };
            match wire::read_nested::<web_socket::Close>(before, wire, s, depth) {
                Some((v, rest)) => Some(
                    (
                        WebSocketModel { message: Some(web_socket::MessageModel::Close(v)), ..m },
                        rest,
                    ),
                ),
                None => None,
            }
        } else {
            match wire::skipped(tag, wire, s, depth) {
                Some(rest) => Some((m, rest)),
                None => None,
            }
        }
    }

    open spec fn bytes_of(m: WebSocketModel) -> Seq<u8> {
        wire::implicit_bytes(1, m.socket_id) + payload_bytes(m.message)
    }

    fn empty() -> (r: Self) {
        WebSocket { socket_id: Vec::new(), message: None }
    }

    fn merge_field<'a>(self, tag: u32, wire: WireType, buf: &'a [u8], depth: u32) -> (r: Result<
        (Self, &'a [u8]),
        DecodeError,
    >) {
        proof {
            wire::lemma_read_value_shorter(wire, buf@);
        }
        let mut m = self;
        if tag == 1 {
            let (v, rest) = wire::decode_bytes(wire, buf)?;
            m.socket_id = v;
            Ok((m, rest))
        } else if tag == 2 {
            let (v, rest) = wire::decode_string(wire, buf)?;
            m.message = Some(web_socket::Message::Text(v));
            Ok((m, rest))
        } else if tag == 3 {
            let (v, rest) = wire::decode_bytes(wire, buf)?;
            m.message = Some(web_socket::Message::Binary(v));
            Ok((m, rest))
        } else if tag == 4 {
            let (v, rest) = wire::decode_bytes(wire, buf)?;
            m.message = Some(web_socket::Message::Ping(v));
            Ok((m, rest))
        } else if tag == 5 {
            let (v, rest) = wire::decode_bytes(wire, buf)?;
            m.message = Some(web_socket::Message::Pong(v));
            Ok((m, rest))
        } else if tag == 6 {
            let WebSocket { socket_id, message } = m;
            let before = match message {
                Some(web_socket::Message::Close(v)) => v,
                _ => web_socket::Close::empty(),
            };
            let (v, rest) = wire::decode_nested(before, wire, buf, depth)?;
            Ok((WebSocket { socket_id, message: Some(web_socket::Message::Close(v)) }, rest))
        } else {
            let rest = wire::skip_field(tag, wire, buf, depth)?;
            Ok((m, rest))
        }
    }

    fn encode_raw(&self, buf: &mut Vec<u8>) {
        wire::put_bytes(1, &self.socket_id, buf);
        match &self.message {
            Some(web_socket::Message::Text(v)) => wire::encode_string(2, v, buf),
            Some(web_socket::Message::Binary(v)) => wire::encode_bytes(3, v, buf),
            Some(web_socket::Message::Ping(v)) => wire::encode_bytes(4, v, buf),
            Some(web_socket::Message::Pong(v)) => wire::encode_bytes(5, v, buf),
            Some(web_socket::Message::Close(v)) => wire::encode_nested(6, v, buf),
            None => {},
        }
        assert(buf@ =~= old(buf)@ + (wire::implicit_bytes(1, self.socket_id@) + payload_bytes(
            self@.message,
        )));
    }
}

/// A WebSocket message is read back as it was written, where one more level may nest.
pub proof fn law_web_socket_round_trip(m: WebSocketModel, depth: u32)
    requires
        1 <= depth,
        WebSocket::bytes_of(m).len() <= u64::MAX,
    ensures
        wire::read_fields::<WebSocket>(WebSocket::initial(), WebSocket::bytes_of(m), depth) == Some(m),
{
    let none = Seq::<u8>::empty();
    let s2 = payload_bytes(m.message) + none;
    let m1 = WebSocketModel { socket_id: m.socket_id, message: None };
    assert(WebSocket::bytes_of(m) =~= wire::implicit_bytes(1, m.socket_id) + s2);
    assert(m.socket_id.len() == 0 ==> m.socket_id =~= Seq::<u8>::empty());
    wire::lemma_implicit_bytes::<WebSocket>(WebSocket::initial(), 1, m.socket_id, m1, s2, depth);
    match m.message {
        Some(web_socket::MessageModel::Text(v)) => {
            wire::lemma_string_then_rest::<WebSocket>(m1, 2, v, m, none, depth);
        },
        Some(web_socket::MessageModel::Binary(v)) => {
            wire::lemma_bytes_then_rest::<WebSocket>(m1, 3, v, m, none, depth);
        },
        Some(web_socket::MessageModel::Ping(v)) => {
            wire::lemma_bytes_then_rest::<WebSocket>(m1, 4, v, m, none, depth);
        },
        Some(web_socket::MessageModel::Pong(v)) => {
            wire::lemma_bytes_then_rest::<WebSocket>(m1, 5, v, m, none, depth);
        },
        Some(web_socket::MessageModel::Close(v)) => {
            web_socket::law_close_round_trip(v, (depth - 1) as u32);
            wire::lemma_bytes_then_rest::<WebSocket>(
                m1,
                6,
                web_socket::Close::bytes_of(v),
                m,
                none,
                depth,
            );
        },
        None => {
            assert(s2 =~= none);
        },
    }
    assert(wire::read_fields::<WebSocket>(m, none, depth) == Some(m));
}

/// What a message on the wire holds.
pub struct MessageModel {
    pub protocol: Option<message::ProtocolModel>,
}

/// A message on the wire.
#[derive(Debug)]
pub struct Message {
    pub protocol: Option<message::Protocol>,
}

impl MessageModel {
    /// Header names occur once.
    pub open spec fn wf(self) -> bool {
        match self.protocol {
            Some(p) => p.wf(),
            None => true,
        }
    }
}

impl View for Message {
    type V = MessageModel;

    open spec fn view(&self) -> MessageModel {
        MessageModel {
            protocol: match self.protocol {
                Some(p) => Some(p@),
                None => None,
            },
        }
    }
}

impl WireMessage for Message {
    open spec fn initial() -> MessageModel {
        MessageModel { protocol: None }
    }

    open spec fn read_field(
        m: MessageModel,
        tag: u32,
        wire: WireType,
        s: Seq<u8>,
        depth: u32,
    ) -> Option<(MessageModel, Seq<u8>)> {
        if tag == 1 {
            let before = match m.protocol {
                Some(message::ProtocolModel::Http(v)) => v,
                _ => Http::initial(),
            };
            match wire::read_nested::<Http>(before, wire, s, depth) {
                Some((v, rest)) => Some(
                    (MessageModel { protocol: Some(message::ProtocolModel::Http(v)) }, rest),
                ),
                None => None,
            }
        } else if tag == 2 {
            let before = match m.protocol {
                Some(message::ProtocolModel::Ws(v)) => v,
                _ => WebSocket::initial(),
            };
            match wire::read_nested::<WebSocket>(before, wire, s, depth) {
                Some((v, rest)) => Some(
                    (MessageModel { protocol: Some(message::ProtocolModel::Ws(v)) }, rest),
                ),
                None => None,
            }
        } else {
            match wire::skipped(tag, wire, s, depth) {
                Some(rest) => Some((m, rest)),
                None => None,
            }
        }
    }

    open spec fn bytes_of(m: MessageModel) -> Seq<u8> {
        match m.protocol {
            Some(message::ProtocolModel::Http(v)) => wire::bytes_field(1, Http::bytes_of(v)),
            Some(message::ProtocolModel::Ws(v)) => wire::bytes_field(2, WebSocket::bytes_of(v)),
            None => Seq::empty(),
        }
    }

    fn empty() -> (r: Self) {
        Message { protocol: None }
    }

    fn merge_field<'a>(self, tag: u32, wire: WireType, buf: &'a [u8], depth: u32) -> (r: Result<
        (Self, &'a [u8]),
        DecodeError,
    >) {
        if tag == 1 {
            let before = match self.protocol {
                Some(message::Protocol::Http(v)) => v,
                _ => Http::empty(),
            };
            let (v, rest) = wire::decode_nested(before, wire, buf, depth)?;
            Ok((Message { protocol: Some(message::Protocol::Http(v)) }, rest))
        } else if tag == 2 {
            let before = match self.protocol {
                Some(message::Protocol::Ws(v)) => v,
                _ => WebSocket::empty(),
            };
            let (v, rest) = wire::decode_nested(before, wire, buf, depth)?;
            Ok((Message { protocol: Some(message::Protocol::Ws(v)) }, rest))
        } else {
            let rest = wire::skip_field(tag, wire, buf, depth)?;
            Ok((self, rest))
        }
    }

    fn encode_raw(&self, buf: &mut Vec<u8>) {
        match &self.protocol {
            Some(message::Protocol::Http(v)) => wire::encode_nested(1, v, buf),
            Some(message::Protocol::Ws(v)) => wire::encode_nested(2, v, buf),
            None => {},
        }
    }
}

/// A message is read back as it was written, where three more levels may nest.
pub proof fn law_message_round_trip(m: MessageModel, depth: u32)
    requires
        m.wf(),
        3 <= depth,
        Message::bytes_of(m).len() <= u64::MAX,
    ensures
        wire::read_fields::<Message>(Message::initial(), Message::bytes_of(m), depth) == Some(m),
{
    let none = Seq::<u8>::empty();
    match m.protocol {
        Some(message::ProtocolModel::Http(v)) => {
            let body = Http::bytes_of(v);
            law_http_round_trip(v, (depth - 1) as u32);
            wire::lemma_bytes_then_rest::<Message>(Message::initial(), 1, body, m, none, depth);
            assert(wire::bytes_field(1, body) + none =~= wire::bytes_field(1, body));
        },
        Some(message::ProtocolModel::Ws(v)) => {
            let body = WebSocket::bytes_of(v);
            law_web_socket_round_trip(v, (depth - 1) as u32);
            wire::lemma_bytes_then_rest::<Message>(Message::initial(), 2, body, m, none, depth);
            assert(wire::bytes_field(2, body) + none =~= wire::bytes_field(2, body));
        },
        None => {},
    }
    assert(wire::read_fields::<Message>(m, none, depth) == Some(m));
}

/// The first field of an HTTP exchange is a request and the second a response. A request that comes
/// after a request adds to it, and takes the place of a response, and likewise the other way round.
pub proof fn law_http_fields(
    m: HttpModel,
    body: Seq<u8>,
    rest: Seq<u8>,
    depth: u32,
    req: http::RequestModel,
    res: http::ResponseModel,
)
    requires
        1 <= depth,
        body.len() <= u64::MAX,
    ensures
        Http::initial().message is None,
        wire::read_fields::<http::Request>(
            match m.message {
                Some(http::MessageModel::Request(before)) => before,
                _ => http::Request::initial(),
            },
            body,
            (depth - 1) as u32,
        ) == Some(req) ==> wire::read_fields::<Http>(m, wire::bytes_field(1, body) + rest, depth)
            == wire::read_fields::<Http>(
            HttpModel { message: Some(http::MessageModel::Request(req)) },
            rest,
            depth,
        ),
        wire::read_fields::<http::Response>(
            match m.message {
                Some(http::MessageModel::Response(before)) => before,
                _ => http::Response::initial(),
            },
            body,
            (depth - 1) as u32,
        ) == Some(res) ==> wire::read_fields::<Http>(m, wire::bytes_field(2, body) + rest, depth)
            == wire::read_fields::<Http>(
            HttpModel { message: Some(http::MessageModel::Response(res)) },
            rest,
            depth,
        ),
{
    if wire::read_fields::<http::Request>(
        match m.message {
            Some(http::MessageModel::Request(before)) => before,
            _ => http::Request::initial(),
        },
        body,
        (depth - 1) as u32,
    ) == Some(req) {
        wire::lemma_bytes_then_rest::<Http>(
            m,
            1,
            body,
            HttpModel { message: Some(http::MessageModel::Request(req)) },
            rest,
            depth,
        );
    }
    if wire::read_fields::<http::Response>(
        match m.message {
            Some(http::MessageModel::Response(before)) => before,
            _ => http::Response::initial(),
        },
        body,
        (depth - 1) as u32,
    ) == Some(res) {
        wire::lemma_bytes_then_rest::<Http>(
            m,
            2,
            body,
            HttpModel { message: Some(http::MessageModel::Response(res)) },
            rest,
            depth,
        );
    }
}

/// The fields of a WebSocket message are, in this order, the ID of its connection, text, bytes, a
/// ping, a pong and a closure. Of the last five the one that comes last counts, with its data, and a
/// closure that comes after a closure adds to it.
pub proof fn law_web_socket_fields(
    m: WebSocketModel,
    bytes: Seq<u8>,
    text: Seq<char>,
    close: web_socket::CloseModel,
    rest: Seq<u8>,
    depth: u32,
)
    requires
        1 <= depth,
        bytes.len() <= u64::MAX,
        encode_utf8(text).len() <= u64::MAX,
    ensures
        WebSocket::initial() == (WebSocketModel { socket_id: Seq::empty(), message: None }),
        wire::read_fields::<WebSocket>(m, wire::bytes_field(1, bytes) + rest, depth)
            == wire::read_fields::<WebSocket>(
            WebSocketModel { socket_id: bytes, ..m },
            rest,
            depth,
        ),
        wire::read_fields::<WebSocket>(m, wire::string_field(2, text) + rest, depth)
            == wire::read_fields::<WebSocket>(
            WebSocketModel { message: Some(web_socket::MessageModel::Text(text)), ..m },
            rest,
            depth,
        ),
        wire::read_fields::<WebSocket>(m, wire::bytes_field(3, bytes) + rest, depth)
            == wire::read_fields::<WebSocket>(
            WebSocketModel { message: Some(web_socket::MessageModel::Binary(bytes)), ..m },
            rest,
            depth,
        ),
        wire::read_fields::<WebSocket>(m, wire::bytes_field(4, bytes) + rest, depth)
            == wire::read_fields::<WebSocket>(
            WebSocketModel { message: Some(web_socket::MessageModel::Ping(bytes)), ..m },
            rest,
            depth,
        ),
        wire::read_fields::<WebSocket>(m, wire::bytes_field(5, bytes) + rest, depth)
            == wire::read_fields::<WebSocket>(
            WebSocketModel { message: Some(web_socket::MessageModel::Pong(bytes)), ..m },
            rest,
            depth,
        ),
        wire::read_fields::<web_socket::Close>(
            match m.message {
                Some(web_socket::MessageModel::Close(before)) => before,
                _ => web_socket::Close::initial(),
            },
            bytes,
            (depth - 1) as u32,
        ) == Some(close) ==> wire::read_fields::<WebSocket>(
            m,
            wire::bytes_field(6, bytes) + rest,
            depth,
        ) == wire::read_fields::<WebSocket>(
            WebSocketModel { message: Some(web_socket::MessageModel::Close(close)), ..m },
            rest,
            depth,
        ),
{
    wire::lemma_bytes_then_rest::<WebSocket>(
        m,
        1,
        bytes,
        WebSocketModel { socket_id: bytes, ..m },
        rest,
        depth,
    );
    wire::lemma_string_then_rest::<WebSocket>(
        m,
        2,
        text,
        WebSocketModel { message: Some(web_socket::MessageModel::Text(text)), ..m },
        rest,
        depth,
    );
    wire::lemma_bytes_then_rest::<WebSocket>(
        m,
        3,
        bytes,
        WebSocketModel { message: Some(web_socket::MessageModel::Binary(bytes)), ..m },
        rest,
        depth,
    );
    wire::lemma_bytes_then_rest::<WebSocket>(
        m,
        4,
        bytes,
        WebSocketModel { message: Some(web_socket::MessageModel::Ping(bytes)), ..m },
        rest,
        depth,
    );
    wire::lemma_bytes_then_rest::<WebSocket>(
        m,
        5,
        bytes,
        WebSocketModel { message: Some(web_socket::MessageModel::Pong(bytes)), ..m },
        rest,
        depth,
    );
    if wire::read_fields::<web_socket::Close>(
        match m.message {
            Some(web_socket::MessageModel::Close(before)) => before,
            _ => web_socket::Close::initial(),
        },
        bytes,
        (depth - 1) as u32,
    ) == Some(close) {
        wire::lemma_bytes_then_rest::<WebSocket>(
            m,
            6,
            bytes,
            WebSocketModel { message: Some(web_socket::MessageModel::Close(close)), ..m },
            rest,
            depth,
        );
    }
}

/// The first field of a message is an HTTP exchange and the second a WebSocket message. One that
/// comes after one of its kind adds to it, and takes the place of one of the other.
pub proof fn law_message_fields(
    m: MessageModel,
    body: Seq<u8>,
    rest: Seq<u8>,
    depth: u32,
    http: HttpModel,
    ws: WebSocketModel,
)
    requires
        1 <= depth,
        body.len() <= u64::MAX,
    ensures
        Message::initial().protocol is None,
        wire::read_fields::<Http>(
            match m.protocol {
                Some(message::ProtocolModel::Http(before)) => before,
                _ => Http::initial(),
            },
            body,
            (depth - 1) as u32,
        ) == Some(http) ==> wire::read_fields::<Message>(
            m,
            wire::bytes_field(1, body) + rest,
            depth,
        ) == wire::read_fields::<Message>(
            MessageModel { protocol: Some(message::ProtocolModel::Http(http)) },
            rest,
            depth,
        ),
        wire::read_fields::<WebSocket>(
            match m.protocol {
                Some(message::ProtocolModel::Ws(before)) => before,
                _ => WebSocket::initial(),
            },
            body,
            (depth - 1) as u32,
        ) == Some(ws) ==> wire::read_fields::<Message>(m, wire::bytes_field(2, body) + rest, depth)
            == wire::read_fields::<Message>(
            MessageModel { protocol: Some(message::ProtocolModel::Ws(ws)) },
            rest,
            depth,
        ),
{
    if wire::read_fields::<Http>(
        match m.protocol {
            Some(message::ProtocolModel::Http(before)) => before,
            _ => Http::initial(),
        },
        body,
        (depth - 1) as u32,
    ) == Some(http) {
        wire::lemma_bytes_then_rest::<Message>(
            m,
            1,
            body,
            MessageModel { protocol: Some(message::ProtocolModel::Http(http)) },
            rest,
            depth,
        );
    }
    if wire::read_fields::<WebSocket>(
        match m.protocol {
            Some(message::ProtocolModel::Ws(before)) => before,
            _ => WebSocket::initial(),
        },
        body,
        (depth - 1) as u32,
    ) == Some(ws) {
        wire::lemma_bytes_then_rest::<Message>(
            m,
            2,
            body,
            MessageModel { protocol: Some(message::ProtocolModel::Ws(ws)) },
            rest,
            depth,
        );
    }
}

/// A field that is not known is passed over.
pub proof fn law_unknown_fields(
    http: HttpModel,
    ws: WebSocketModel,
    m: MessageModel,
    close: web_socket::CloseModel,
    tag: u32,
    wire: WireType,
    value: Seq<u8>,
    rest: Seq<u8>,
    depth: u32,
)
    requires
        3 <= tag <= wire::MAX_TAG,
        wire::skipped(tag, wire, value + rest, depth) == Some(rest),
    ensures
        ({
            let field = wire::key(tag as nat, wire) + value;
            &&& wire::read_fields::<Http>(http, field + rest, depth)
                == wire::read_fields::<Http>(http, rest, depth)
            &&& 7 <= tag ==> wire::read_fields::<WebSocket>(ws, field + rest, depth)
                == wire::read_fields::<WebSocket>(ws, rest, depth)
            &&& wire::read_fields::<Message>(m, field + rest, depth)
                == wire::read_fields::<Message>(m, rest, depth)
            &&& wire::read_fields::<web_socket::Close>(close, field + rest, depth)
                == wire::read_fields::<web_socket::Close>(close, rest, depth)
        }),
{
    wire::lemma_field_then_rest::<Http>(http, tag, wire, value, http, rest, depth);
    if 7 <= tag {
        wire::lemma_field_then_rest::<WebSocket>(ws, tag, wire, value, ws, rest, depth);
    }
    wire::lemma_field_then_rest::<Message>(m, tag, wire, value, m, rest, depth);
    wire::lemma_field_then_rest::<web_socket::Close>(close, tag, wire, value, close, rest, depth);
}

/// Nothing is read where a field is malformed: where its value is none of its kind, a message in it
/// is malformed or nests too deep, or a field that is not known cannot be stepped over.
pub proof fn law_malformed_fields(
    http: HttpModel,
    ws: WebSocketModel,
    m: MessageModel,
    close: web_socket::CloseModel,
    tag: u32,
    wire: WireType,
    rest: Seq<u8>,
    depth: u32,
)
    requires
        1 <= tag <= wire::MAX_TAG,
    ensures
        ({
            let field = wire::key(tag as nat, wire) + rest;
            let unknown = wire::skipped(tag, wire, rest, depth) is None;
            let no_bytes = wire::read_bytes(wire, rest) is None;
            let no_text = wire::read_string(wire, rest) is None;
            let no_number = wire::read_uint32(wire, rest) is None;
            let no_request = wire::read_nested::<http::Request>(
                match http.message {
                    Some(http::MessageModel::Request(before)) => before,
                    _ => http::Request::initial(),
                },
                wire,
                rest,
                depth,
            ) is None;
            let no_response = wire::read_nested::<http::Response>(
                match http.message {
                    Some(http::MessageModel::Response(before)) => before,
                    _ => http::Response::initial(),
                },
                wire,
                rest,
                depth,
            ) is None;
            let no_close = wire::read_nested::<web_socket::Close>(
                match ws.message {
                    Some(web_socket::MessageModel::Close(before)) => before,
                    _ => web_socket::Close::initial(),
                },
                wire,
                rest,
                depth,
            ) is None;
            let no_http = wire::read_nested::<Http>(
                match m.protocol {
                    Some(message::ProtocolModel::Http(before)) => before,
                    _ => Http::initial(),
                },
                wire,
                rest,
                depth,
            ) is None;
            let no_ws = wire::read_nested::<WebSocket>(
                match m.protocol {
                    Some(message::ProtocolModel::Ws(before)) => before,
                    _ => WebSocket::initial(),
                },
                wire,
                rest,
                depth,
            ) is None;
            &&& (tag == 1 && no_request) || (tag == 2 && no_response) || (3 <= tag && unknown)
                ==> wire::read_fields::<Http>(http, field, depth) is None
            &&& ((tag == 1 || 3 <= tag <= 5) && no_bytes) || (tag == 2 && no_text)
                || (tag == 6 && no_close) || (7 <= tag && unknown)
                ==> wire::read_fields::<WebSocket>(ws, field, depth) is None
            &&& (tag == 1 && no_http) || (tag == 2 && no_ws) || (3 <= tag && unknown)
                ==> wire::read_fields::<Message>(m, field, depth) is None
            &&& (tag == 1 && no_number) || (tag == 2 && no_text) || (3 <= tag && unknown)
                ==> wire::read_fields::<web_socket::Close>(close, field, depth) is None
        }),
{
    if Http::read_field(http, tag, wire, rest, depth) is None {
        wire::lemma_malformed_field::<Http>(http, tag, wire, rest, depth);
    }
    if WebSocket::read_field(ws, tag, wire, rest, depth) is None {
        wire::lemma_malformed_field::<WebSocket>(ws, tag, wire, rest, depth);
    }
    if Message::read_field(m, tag, wire, rest, depth) is None {
        wire::lemma_malformed_field::<Message>(m, tag, wire, rest, depth);
    }
    if web_socket::Close::read_field(close, tag, wire, rest, depth) is None {
        wire::lemma_malformed_field::<web_socket::Close>(close, tag, wire, rest, depth);
    }
}

/// The bytes of a message are its fields, each under the tag of its kind.
pub proof fn law_bytes_are_the_fields(
    req: http::RequestModel,
    res: http::ResponseModel,
    http: HttpModel,
    ws: WebSocketModel,
    text: Seq<char>,
    data: Seq<u8>,
    close: web_socket::CloseModel,
)
    ensures
        Http::bytes_of(HttpModel { message: None }).len() == 0,
        Http::bytes_of(HttpModel { message: Some(http::MessageModel::Request(req)) })
            == wire::bytes_field(1, http::Request::bytes_of(req)),
        Http::bytes_of(HttpModel { message: Some(http::MessageModel::Response(res)) })
            == wire::bytes_field(2, http::Response::bytes_of(res)),
        WebSocket::bytes_of(ws) == wire::implicit_bytes(1, ws.socket_id) + payload_bytes(
            ws.message,
        ),
        payload_bytes(None).len() == 0,
        payload_bytes(Some(web_socket::MessageModel::Text(text))) == wire::string_field(2, text),
        payload_bytes(Some(web_socket::MessageModel::Binary(data))) == wire::bytes_field(3, data),
        payload_bytes(Some(web_socket::MessageModel::Ping(data))) == wire::bytes_field(4, data),
        payload_bytes(Some(web_socket::MessageModel::Pong(data))) == wire::bytes_field(5, data),
        payload_bytes(Some(web_socket::MessageModel::Close(close))) == wire::bytes_field(
            6,
            web_socket::Close::bytes_of(close),
        ),
        Message::bytes_of(MessageModel { protocol: None }).len() == 0,
        Message::bytes_of(MessageModel { protocol: Some(message::ProtocolModel::Http(http)) })
            == wire::bytes_field(1, Http::bytes_of(http)),
        Message::bytes_of(MessageModel { protocol: Some(message::ProtocolModel::Ws(ws)) })
            == wire::bytes_field(2, WebSocket::bytes_of(ws)),
{
}

/// A message views as its members, and a member of a kind as that kind.
pub proof fn law_views(http: Http, ws: WebSocket, m: Message)
    ensures
        ws@.socket_id == ws.socket_id@,
        match http.message {
            Some(message) => http@.message == Some(message@),
            None => http@.message is None,
        },
        match ws.message {
            Some(message) => ws@.message == Some(message@),
            None => ws@.message is None,
        },
        match m.protocol {
            Some(message::Protocol::Http(http)) => m@.protocol == Some(
                message::ProtocolModel::Http(http@),
            ),
            Some(message::Protocol::Ws(ws)) => m@.protocol == Some(message::ProtocolModel::Ws(ws@)),
            None => m@.protocol is None,
        },
{
}

} // verus!
