use forwarder::conn_state::ConnState;
use forwarder::connection::{
    sent_to_stream, sent_to_ttyd, sent_to_ws, Connection, ConnectionError, Either, Step, Wait,
};
use forwarder::proto_message::{ProtoError, ProtoMessage, Protocol, WebSocketMessage};
use forwarder::tung_message::{CloseFrame, TungMessage};

fn create_conn() -> Connection {
    Connection::new(String::from("id1").as_bytes().to_vec())
}

fn content(msg: ProtoMessage) -> (Vec<u8>, WebSocketMessage) {
    match msg.protocol() {
        Protocol::WebSocket(ws) => ws.into_inner(),
        proto => panic!("wrong protocol message sent, {proto:?}"),
    }
}

#[test]
fn test_handle_ws_write() {
    let mut con = create_conn();

    assert!(con.handle_ws_write(None).is_none());
    assert!(matches!(con.state(), ConnState::Read));

    let msg = con.handle_ws_write(Some(WebSocketMessage::Binary(b"test".to_vec())));
    assert!(matches!(msg, Some(TungMessage::Binary(data)) if data == b"test".to_vec()));
    // the stream has been closed
    let sent = sent_to_stream(Err(tungstenite::Error::AlreadyClosed));
    if sent.is_ok() {
        panic!("should have returned error because the websocket stream has been closed");
    }
    assert!(matches!(
        sent,
        Err(ConnectionError::WebSocketSend(tungstenite::Error::AlreadyClosed))
    ));
    assert!(sent_to_stream(Ok(())).is_ok());
}

#[test]
fn test_handle_ws_read() {
    let mut con = create_conn();

    let tung_msg = TungMessage::Binary(b"test".to_vec());
    match con.handle_ws_read(tung_msg) {
        Ok(received) => {
            if let (_, WebSocketMessage::Binary(msg)) = content(received) {
                assert_eq!(msg, b"test".to_vec());
            } else {
                panic!("wrong websocket message");
            }
        }
        Err(err) => panic!("{err:?}"),
    }
    assert!(matches!(con.state(), ConnState::ReadWrite));

    let tung_msg = TungMessage::Close(None);
    match con.handle_ws_read(tung_msg) {
        Ok(received) => {
            if let (_, WebSocketMessage::Close { code, reason }) = content(received) {
                assert_eq!(code, 1000);
                assert_eq!(reason, None);
            } else {
                panic!("wrong websocket message");
            }
        }
        Err(err) => panic!("{err:?}"),
    }
    assert!(matches!(con.state(), ConnState::Write));

    // check for channel error handling
    let tung_msg = TungMessage::Close(None);
    let received = con.handle_ws_read(tung_msg).expect("channel dropped");
    match sent_to_ws(Err(received)) {
        Ok(_) => panic!("having closed rx_ws, the handle_ws_read should return error"),
        Err(ConnectionError::ChannelToWs(_err)) => {}
        Err(err) => panic!("expected another kind of error, not {err:?}"),
    }
}

#[test]
fn read_message_names_no_connection() {
    let mut con = create_conn();
    let msg = con.handle_ws_read(TungMessage::Text("hi".to_string())).unwrap();
    let (id, content) = content(msg);
    assert!(id.is_empty());
    assert!(matches!(content, WebSocketMessage::Text(data) if data == "hi"));
    assert_eq!(con.id(), &b"id1".to_vec());
}

#[test]
fn raw_frame_is_refused() {
    let mut con = create_conn();
    assert!(matches!(
        con.handle_ws_read(TungMessage::Frame),
        Err(ConnectionError::Protobuf(ProtoError::WrongWsFrame))
    ));
    assert_eq!(con.state(), ConnState::ReadWrite);
}

#[test]
fn select_follows_open_directions() {
    let mut con = create_conn();
    assert_eq!(con.select(), Some(Wait::Both));
    con.handle_ws_write(None);
    assert_eq!(con.select(), Some(Wait::Stream));
    con.handle_ws_read(TungMessage::Close(None)).unwrap();
    assert_eq!(con.state(), ConnState::Closed);
    assert_eq!(con.select(), None);

    let mut con = create_conn();
    con.handle_ws_read(TungMessage::Close(None)).unwrap();
    assert_eq!(con.select(), Some(Wait::Channel));
}

#[test]
fn stream_items() {
    assert!(matches!(
        Connection::stream_next(Some(Ok(TungMessage::Ping(vec![1])))),
        Some(Ok(Either::Read(TungMessage::Ping(data)))) if data == vec![1]
    ));
    assert!(matches!(
        Connection::stream_next(Some(Err(tungstenite::Error::ConnectionClosed))),
        Some(Err(ConnectionError::WebSocketNext(tungstenite::Error::ConnectionClosed)))
    ));
    assert!(Connection::stream_next(None).is_none());
    assert!(matches!(
        Connection::channel_recv(None),
        Some(Ok(Either::Write(None)))
    ));
}

#[test]
fn task_steps() {
    let mut con = create_conn();
    let step = con.task_step(Some(Ok(Either::Read(TungMessage::Pong(vec![7])))));
    match step {
        Ok(Step::Forward(msg)) => {
            assert!(matches!(content(msg).1, WebSocketMessage::Pong(data) if data == vec![7]));
        }
        other => panic!("{other:?}"),
    }
    let msg = WebSocketMessage::close(1001, None);
    match con.task_step(Some(Ok(Either::Write(Some(msg))))) {
        Ok(Step::Write(TungMessage::Close(Some(CloseFrame { code, reason })))) => {
            assert_eq!(code, 1001);
            assert_eq!(reason, "");
        }
        other => panic!("{other:?}"),
    }
    let err = ConnectionError::WebSocketNext(tungstenite::Error::Utf8);
    assert!(matches!(
        con.task_step(Some(Err(err))),
        Ok(Step::Report(ConnectionError::WebSocketNext(_)))
    ));
    assert_eq!(con.state(), ConnState::ReadWrite);
    assert!(matches!(
        con.task_step(Some(Ok(Either::Read(TungMessage::Frame)))),
        Err(ConnectionError::Protobuf(ProtoError::WrongWsFrame))
    ));
    assert!(matches!(
        con.task_step(Some(Ok(Either::Write(None)))),
        Ok(Step::Continue)
    ));
    assert_eq!(con.state(), ConnState::Read);
    assert!(matches!(con.task_step(None), Ok(Step::Done)));
}

#[test]
fn failed_task_closes_with_its_id() {
    let (id, msg) = content(create_conn().close_message());
    assert_eq!(id, b"id1".to_vec());
    assert!(matches!(msg, WebSocketMessage::Close { code: 1000, reason: None }));

    let (res, msg) = create_conn().ended(Ok(()));
    assert!(res.is_ok());
    assert!(msg.is_none());
    let err = ConnectionError::WebSocketSend(tungstenite::Error::AlreadyClosed);
    let (res, msg) = create_conn().ended(Err(err));
    assert!(matches!(
        res,
        Err(ConnectionError::WebSocketSend(tungstenite::Error::AlreadyClosed))
    ));
    let (id, msg) = content(msg.unwrap());
    assert_eq!(id, b"id1".to_vec());
    assert!(matches!(msg, WebSocketMessage::Close { code: 1000, reason: None }));
}

#[test]
fn dropped_terminal_gives_the_message_back() {
    assert!(sent_to_ttyd(Ok(())).is_ok());
    assert!(matches!(
        sent_to_ttyd(Err(WebSocketMessage::ping(vec![3]))),
        Err(ConnectionError::ChannelToTtyd(WebSocketMessage::Ping(data))) if data == vec![3]
    ));
    assert!(sent_to_ws(Ok(())).is_ok());
}

#[test]
fn echo_comes_back() {
    let mut con = create_conn();
    let sent = con.handle_ws_write(Some(WebSocketMessage::text("echo".to_string()))).unwrap();
    let (_, back) = content(con.handle_ws_read(sent).unwrap());
    assert!(matches!(back, WebSocketMessage::Text(data) if data == "echo"));
    let sent = con.handle_ws_write(Some(WebSocketMessage::close(1000, None))).unwrap();
    let (_, back) = content(con.handle_ws_read(sent).unwrap());
    assert!(
        matches!(back, WebSocketMessage::Close { code: 1000, reason: Some(reason) } if reason.is_empty())
    );
}

#[test]
fn states_have_names() {
    assert_eq!(ConnState::default().as_str(), "ReadWrite");
    assert_eq!(ConnState::Read.as_str(), "Read");
    assert_eq!(ConnState::Write.as_str(), "Write");
    assert_eq!(ConnState::Closed.as_str(), "Closed");
}

#[test]
fn shutdowns_commute_and_stay() {
    for start in [ConnState::ReadWrite, ConnState::Read, ConnState::Write, ConnState::Closed] {
        let mut a = start;
        a.shutdown_read();
        let once = a;
        a.shutdown_read();
        assert_eq!(a, once);
        a.shutdown_write();
        let mut b = start;
        b.shutdown_write();
        assert!(!b.can_write());
        b.shutdown_read();
        assert_eq!(a, ConnState::Closed);
        assert_eq!(b, ConnState::Closed);
    }
    assert!(ConnState::Write.can_write());
    assert!(!ConnState::Read.can_write());
}
