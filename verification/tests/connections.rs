use forwarder::connection::ConnectionError;
use forwarder::connections::{
    check_turn, recover, Action, Connections, ConnectionsHandler, Error, Recovery, Turn,
    WebSocketOperation,
};
use forwarder::headers::Headers;
use forwarder::proto;
use forwarder::proto_message::{
    Http, HttpRequest, HttpResponse, Method, ProtoError, ProtoMessage, Protocol, UpgradeResponse,
    WebSocket, WebSocketMessage,
};
use forwarder::tung_message::TungMessage;
use forwarder::web_url::Url;
use reqwest::header::{HeaderMap, HeaderName, HeaderValue};

fn handler() -> ConnectionsHandler<u8, &'static str> {
    let url = Url::parse("ws://localhost:4000/path?session_token=t").unwrap();
    ConnectionsHandler::connect(url, Ok("stream")).unwrap()
}

fn response() -> UpgradeResponse {
    let mut headers = HeaderMap::new();
    headers.append(HeaderName::from_static("server"), HeaderValue::from_static("ttyd"));
    UpgradeResponse {
        status_code: 101,
        headers,
        body: None,
    }
}

fn with_connection(id: &[u8], connection: u8) -> ConnectionsHandler<u8, &'static str> {
    let mut handler = handler();
    let (replaced, _) = handler.upgraded(connection, id.to_vec(), response());
    assert!(replaced.is_none());
    handler
}

fn binary(protocol: Protocol) -> TungMessage {
    TungMessage::Binary(ProtoMessage::new(protocol).encode().unwrap())
}

fn ws(id: &[u8], message: WebSocketMessage) -> TungMessage {
    binary(Protocol::WebSocket(WebSocket::new(id.to_vec(), message)))
}

fn request(method: &str, upgrade: bool) -> TungMessage {
    let mut headers = Headers::new();
    if upgrade {
        headers.insert("Upgrade".to_string(), "websocket".to_string());
    }
    binary(Protocol::Http(Http::Request(HttpRequest::from(
        proto::http::Request {
            request_id: b"r1".to_vec(),
            path: "p".to_string(),
            method: method.to_string(),
            querystring: None,
            headers,
            payload: Some(vec![1, 2]),
            port: 0,
        },
    ))))
}

#[test]
fn ping_is_answered() {
    let mut handler = handler();
    assert!(matches!(
        handler.handle_msg(TungMessage::Ping(vec![4, 2])),
        Ok(Action::Send(TungMessage::Pong(data))) if data == vec![4, 2]
    ));
}

#[test]
fn some_messages_ask_for_nothing() {
    let mut handler = with_connection(b"a", 1);
    let response = HttpResponse::new(b"r", 200, Headers::new(), Vec::new());
    for msg in [
        TungMessage::Pong(Vec::new()),
        TungMessage::Text("hi".to_string()),
        TungMessage::Frame,
        binary(Protocol::Http(Http::Response(response))),
    ] {
        assert!(matches!(handler.handle_msg(msg), Ok(Action::Nothing)));
    }
    assert_eq!(handler.get_connection(&b"a".to_vec()), Some(&1));
}

#[test]
fn close_frame_aborts_all() {
    let mut handler = with_connection(b"a", 1);
    handler.upgraded(2, b"b".to_vec(), response());
    match handler.handle_msg(TungMessage::Close(None)) {
        Ok(Action::Abort(all)) => assert_eq!(all, vec![1, 2]),
        other => panic!("{other:?}"),
    }
    assert_eq!(handler.get_connection(&b"a".to_vec()), None);
    assert_eq!(handler.get_connection(&b"b".to_vec()), None);
}

#[test]
fn contents_reach_their_connection() {
    let mut handler = with_connection(b"a", 1);
    match handler.handle_msg(ws(b"a", WebSocketMessage::text("x".to_string()))) {
        Ok(Action::Forward(id, WebSocketMessage::Text(data))) => {
            assert_eq!(id, b"a".to_vec());
            assert_eq!(data, "x");
        }
        other => panic!("{other:?}"),
    }
    assert!(matches!(
        handler.handle_msg(ws(b"b", WebSocketMessage::text("x".to_string()))),
        Ok(Action::Nothing)
    ));
}

#[test]
fn closed_connection_discards() {
    let mut handler = with_connection(b"a", 1);
    handler.upgraded(2, b"b".to_vec(), response());
    match handler.handle_msg(ws(b"a", WebSocketMessage::close(1001, None))) {
        Ok(Action::Close(connection, msg)) => {
            assert_eq!(connection, 1);
            assert!(matches!(msg, WebSocketMessage::Close { code: 1001, reason: None }));
        }
        other => panic!("{other:?}"),
    }
    assert!(matches!(
        handler.handle_msg(ws(b"a", WebSocketMessage::close(1001, None))),
        Ok(Action::Nothing)
    ));
    assert!(matches!(
        handler.handle_msg(ws(b"a", WebSocketMessage::ping(Vec::new()))),
        Ok(Action::Nothing)
    ));
    assert_eq!(handler.get_connection(&b"b".to_vec()), Some(&2));
}

#[test]
fn requests_are_prepared() {
    let mut handler = handler();
    match handler.handle_msg(request("post", false)) {
        Ok(Action::Request(id, req)) => {
            assert_eq!(id, b"r1".to_vec());
            assert_eq!(req.method, Method::Post);
            assert_eq!(req.url.as_str(), "ws://localhost:0/p");
            assert_eq!(req.payload, vec![1, 2]);
        }
        other => panic!("{other:?}"),
    }
    match handler.handle_msg(request("get", true)) {
        Ok(Action::Upgrade(id, req)) => {
            assert_eq!(id, b"r1".to_vec());
            assert_eq!(req.method, Method::Get);
            assert_eq!(req.uri, "ws://localhost:0/p");
        }
        other => panic!("{other:?}"),
    }
    for upgrade in [true, false] {
        assert!(matches!(
            handler.handle_msg(request("bogus", upgrade)),
            Err(ConnectionError::Protobuf(ProtoError::WrongHttpMethod(m))) if m == "BOGUS"
        ));
    }
}

#[test]
fn bad_bytes_are_refused() {
    let mut handler = with_connection(b"a", 1);
    assert!(matches!(
        handler.handle_msg(TungMessage::Binary(vec![0xff])),
        Err(ConnectionError::Protobuf(ProtoError::Decode(_)))
    ));
    assert!(matches!(
        handler.handle_msg(TungMessage::Binary(vec![0x0a, 0])),
        Err(ConnectionError::Protobuf(ProtoError::EmptyHttpMessage))
    ));
    assert!(handler.handle_msg_checked(TungMessage::Binary(Vec::new())).is_none());
    assert!(matches!(
        handler.handle_msg_checked(TungMessage::Binary(vec![0x12, 0])),
        Some(Err(ConnectionError::Protobuf(ProtoError::EmptyWsMessage)))
    ));
    assert_eq!(handler.get_connection(&b"a".to_vec()), Some(&1));
}

#[test]
fn many_headers_are_sent() {
    let mut headers = Headers::new();
    for i in 0..6600 {
        headers.insert(format!("h{i}"), String::new());
    }
    let msg = binary(Protocol::Http(Http::Request(HttpRequest::from(
        proto::http::Request {
            request_id: Vec::new(),
            path: String::new(),
            method: "get".to_string(),
            querystring: None,
            headers,
            payload: None,
            port: 0,
        },
    ))));
    match handler().handle_msg_checked(msg) {
        Some(Ok(Action::Request(_, req))) => assert_eq!(req.headers.len(), 6600),
        other => panic!("{other:?}"),
    }
}

#[test]
fn opened_connection_is_reported() {
    let mut handler = handler();
    let (_, msg) = handler.upgraded(1, b"r1".to_vec(), response());
    let mut headers = Headers::new();
    headers.insert("server".to_string(), "ttyd".to_string());
    let expected = ProtoMessage::new(Protocol::Http(Http::Response(HttpResponse::new(
        b"r1",
        101,
        headers,
        Vec::new(),
    ))));
    assert_eq!(msg.encode().unwrap(), expected.encode().unwrap());
    let mut res = response();
    res.body = Some(vec![8]);
    let (replaced, msg) = handler.upgraded(2, b"r1".to_vec(), res);
    assert_eq!(replaced, Some(1));
    assert!(msg.encode().unwrap().ends_with(&[0x22, 1, 8]));
    assert_eq!(handler.get_connection(&b"r1".to_vec()), Some(&2));
}

#[test]
fn chunks_are_reported() {
    let headers = Headers::new();
    type Handler = ConnectionsHandler<u8, u8>;
    let msg = Handler::next_chunk(b"r", 200, &headers, Ok(Some(vec![7]))).unwrap().unwrap();
    let expected = Handler::send_http_res(b"r", 200, Headers::new(), vec![7]);
    assert_eq!(msg.encode().unwrap(), expected.encode().unwrap());
    assert!(matches!(Handler::next_chunk(b"r", 200, &headers, Ok(None)), Ok(None)));
    let err = reqwest::Client::new().get("no url").build().unwrap_err();
    assert!(matches!(
        Handler::next_chunk(b"r", 200, &headers, Err(err)),
        Err(ConnectionError::Reqwest(_))
    ));
}

#[test]
fn turns_follow_what_happened() {
    let mut handler = with_connection(b"a", 1);
    assert!(matches!(
        handler.handle_connections(WebSocketOperation::Ping),
        Ok(Turn::Act(Action::Send(TungMessage::Ping(data)))) if data.is_empty()
    ));
    assert!(matches!(
        handler.handle_connections(WebSocketOperation::Receive(None)),
        Ok(Turn::Stop)
    ));
    let op = WebSocketOperation::Receive(Some(Err(tungstenite::Error::ConnectionClosed)));
    assert!(matches!(
        handler.handle_connections(op),
        Ok(Turn::Recover(Recovery::Reconnect(tungstenite::Error::ConnectionClosed)))
    ));
    let msg = || {
        ProtoMessage::new(Protocol::WebSocket(WebSocket::new(
            vec![1],
            WebSocketMessage::pong(vec![2]),
        )))
    };
    match handler.handle_connections(WebSocketOperation::Send(Some(msg()))) {
        Ok(Turn::Act(Action::Send(TungMessage::Binary(bytes)))) => {
            assert_eq!(bytes, msg().encode().unwrap());
        }
        other => panic!("{other:?}"),
    }
    let op = WebSocketOperation::Receive(Some(Ok(TungMessage::Ping(vec![3]))));
    assert!(matches!(
        handler.handle_connections(op),
        Ok(Turn::Act(Action::Send(TungMessage::Pong(data)))) if data == vec![3]
    ));
    let op = WebSocketOperation::Receive(Some(Ok(TungMessage::Binary(vec![0x12, 0]))));
    assert!(matches!(
        handler.handle_connections(op),
        Ok(Turn::Recover(Recovery::Report(ConnectionError::Protobuf(ProtoError::EmptyWsMessage))))
    ));
    assert!(!check_turn(&WebSocketOperation::Send(None)));
    assert!(check_turn(&WebSocketOperation::Ping));
}

#[test]
fn recoveries() {
    for err in [
        ConnectionError::WebSocketSend(tungstenite::Error::Utf8),
        ConnectionError::WebSocketNext(tungstenite::Error::Utf8),
        ConnectionError::Reconnect(tungstenite::Error::Utf8),
    ] {
        assert!(matches!(
            recover(err),
            Recovery::Reconnect(tungstenite::Error::Utf8)
        ));
    }
    let err = ConnectionError::Protobuf(ProtoError::WrongWsFrame);
    assert!(matches!(
        recover(err),
        Recovery::Report(ConnectionError::Protobuf(ProtoError::WrongWsFrame))
    ));
}

#[test]
fn stream_is_replaced() {
    let mut handler = with_connection(b"a", 1);
    assert!(matches!(
        handler.reconnect(Err(tungstenite::Error::Utf8)),
        Err(ConnectionError::Reconnect(tungstenite::Error::Utf8))
    ));
    assert_eq!(*handler.ws_stream_mut(), "stream");
    assert!(handler.reconnect(Ok("other")).is_ok());
    assert_eq!(*handler.ws_stream_mut(), "other");
    *handler.ws_stream_mut() = "third";
    assert_eq!(*handler.ws_stream_mut(), "third");
    assert_eq!(handler.get_connection(&b"a".to_vec()), Some(&1));
    assert_eq!(
        handler.get_url().as_str(),
        "ws://localhost:4000/path?session_token=t"
    );
}

#[test]
fn connect_fails_with_the_stream() {
    let url = Url::parse("ws://localhost:4000/").unwrap();
    let r = ConnectionsHandler::<u8, u8>::connect(url, Err(tungstenite::Error::Utf8));
    assert!(matches!(
        r,
        Err(Error::WebSocketConnect(tungstenite::Error::Utf8))
    ));
}

#[test]
fn connections_by_id() {
    let mut connections: Connections<u8> = Connections::new();
    assert_eq!(connections.add_connection(1, vec![1]), None);
    assert_eq!(connections.add_connection(2, vec![2]), None);
    assert_eq!(connections.add_connection(3, vec![1]), Some(1));
    assert_eq!(connections.len(), 2);
    assert_eq!(connections.get_connection(&vec![1]), Some(&3));
    assert_eq!(connections.remove_connection(&vec![2]), Some(2));
    assert_eq!(connections.remove_connection(&vec![2]), None);
    assert_eq!(connections.clear(), vec![3]);
    assert_eq!(connections.len(), 0);
}
