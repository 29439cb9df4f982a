use forwarder::conn_state::ConnState;
use forwarder::items;
use forwarder::tung_message::TungMessage;
use forwarder::tunnel::{
    device_next, recv_tcp, Action, ConnMsg, Connection, Connections, Either, Id, Next, Step,
    Transmitted, Wait, WsMsg, WsTransmitted,
};
use forwarder::vec_map::Key;
use forwarder::wire::encode_to_vec;

fn id() -> Id {
    Id::new(9090, "HOST".to_string())
}

fn bytes(msg: WsMsg) -> Vec<u8> {
    WsTransmitted::new(id(), msg).encode().unwrap()
}

fn sent(transmitted: Transmitted) -> TungMessage {
    recv_tcp(Some(transmitted)).unwrap()
}

#[test]
fn identity_in_print() {
    assert_eq!(id().to_text(), "(9090,HOST)");
    assert_eq!(Id::new(0, String::new()).to_text(), "(0,)");
    assert!(id().same(&id().clone()));
    assert!(!id().same(&Id::new(9091, "HOST".to_string())));
    assert!(!id().same(&Id::new(9090, "host".to_string())));
}

#[test]
fn transmitted_bytes() {
    assert_eq!(
        bytes(WsMsg::Data(vec![7])),
        vec![
            0x0a, 9, 0x08, 0x82, 0x47, 0x12, 4, b'H', b'O', b'S', b'T', 0x12, 5, 0x22, 3, 0x0a, 1,
            7
        ]
    );
    assert!(bytes(WsMsg::NewConnection).ends_with(&[0x12, 2, 0x0a, 0]));
    assert!(bytes(WsMsg::Eot).ends_with(&[0x12, 2, 0x12, 0]));
    assert!(bytes(WsMsg::CloseConnection).ends_with(&[0x12, 2, 0x1a, 0]));
    assert!(bytes(WsMsg::Data(Vec::new())).ends_with(&[0x12, 2, 0x22, 0]));
}

#[test]
fn transmitted_is_read_back() {
    for (a, b) in [
        (WsMsg::NewConnection, WsMsg::NewConnection),
        (WsMsg::Eot, WsMsg::Eot),
        (WsMsg::CloseConnection, WsMsg::CloseConnection),
        (WsMsg::Data(vec![1, 2]), WsMsg::Data(vec![1, 2])),
    ] {
        let (read, msg) = WsTransmitted::decode(&bytes(a)).unwrap().into_inner();
        assert!(read.same(&id()));
        assert_eq!(format!("{msg:?}"), format!("{b:?}"));
    }
}

#[test]
fn bad_transmitted_bytes_are_refused() {
    assert!(WsTransmitted::decode(&[0xff]).is_err());
    // a port out of range, with nothing told
    let wide = items::WsTransmitted {
        id: Some(items::Id {
            port: 65536,
            host: String::new(),
        }),
        msg: None,
    };
    assert!(WsTransmitted::decode(&encode_to_vec(&wide)).is_err());
    assert!(matches!(
        WsTransmitted::decode_checked(&encode_to_vec(&wide)),
        Some(Err(()))
    ));
    let no_msg = items::WsTransmitted {
        id: Some(items::Id {
            port: 65535,
            host: String::new(),
        }),
        msg: None,
    };
    assert!(WsTransmitted::decode_checked(&encode_to_vec(&no_msg)).is_none());
    let no_kind = items::WsTransmitted {
        id: Some(items::Id {
            port: 1,
            host: String::new(),
        }),
        msg: Some(items::WsMsg { ws_msg_type: None }),
    };
    assert!(WsTransmitted::decode_checked(&encode_to_vec(&no_kind)).is_none());
    assert!(WsTransmitted::decode_checked(&[]).is_none());
}

#[test]
fn identity_from_the_wire() {
    let read = Id::try_from(items::Id {
        port: 80,
        host: "h".to_string(),
    });
    assert_eq!(read.unwrap().to_text(), "(80,h)");
    let wide = Id::try_from(items::Id {
        port: 65536,
        host: "h".to_string(),
    });
    assert!(wide.is_err());
}

#[test]
fn read_data_is_handed_on() {
    let mut con = Connection::new(id());
    let msg = con.handle_tcp_read::<()>(Ok(2), &[5, 6, 7]).unwrap();
    match sent(msg) {
        TungMessage::Binary(b) => assert_eq!(b, bytes(WsMsg::Data(vec![5, 6]))),
        other => panic!("{other:?}"),
    }
    assert_eq!(con.state(), ConnState::ReadWrite);
    assert!(con.handle_tcp_read(Err(3), &[]).is_err());
    let msg = con.handle_tcp_read::<()>(Ok(0), &[5]).unwrap();
    match sent(msg) {
        TungMessage::Binary(b) => assert_eq!(b, bytes(WsMsg::Eot)),
        other => panic!("{other:?}"),
    }
    assert_eq!(con.state(), ConnState::Write);
    assert_eq!(con.select(), Some(Wait::Channel));
}

#[test]
fn given_data_is_written() {
    let mut con = Connection::new(id());
    assert_eq!(con.select(), Some(Wait::Both));
    assert!(matches!(
        con.handle_tcp_write(Some(ConnMsg::Data(vec![1]))),
        Step::Write(data) if data == vec![1]
    ));
    assert!(matches!(
        con.handle_tcp_write(Some(ConnMsg::Data(Vec::new()))),
        Step::Shutdown
    ));
    assert_eq!(con.state(), ConnState::Read);
    assert_eq!(con.select(), Some(Wait::Both));
    assert!(matches!(
        con.handle_tcp_write(Some(ConnMsg::Data(vec![1]))),
        Step::Continue
    ));
    assert!(matches!(con.handle_tcp_write(Some(ConnMsg::Eot)), Step::Shutdown));
}

#[test]
fn connection_is_closed() {
    for data in [None, Some(ConnMsg::Close)] {
        let mut con = Connection::new(id());
        assert!(matches!(con.handle_tcp_write(data), Step::Close));
        assert!(con.closed(Err(1)).is_err());
        assert_eq!(con.state(), ConnState::ReadWrite);
        assert!(con.closed::<()>(Ok(())).is_ok());
        assert_eq!(con.state(), ConnState::Closed);
        assert_eq!(con.select(), None);
    }
}

#[test]
fn tcp_task_steps() {
    let mut con = Connection::new(id());
    assert!(matches!(
        con.task_step::<()>(Some(Either::Read(Ok(1))), &[1]),
        Ok(Step::Forward(_))
    ));
    assert!(matches!(
        con.task_step(Some(Either::Read(Err("broken"))), &[]),
        Err("broken")
    ));
    assert!(matches!(
        con.task_step::<()>(Some(Either::Write(Some(ConnMsg::Eot))), &[]),
        Ok(Step::Shutdown)
    ));
    assert!(matches!(con.task_step::<()>(None, &[]), Ok(Step::Done)));
    match sent(con.finish()) {
        TungMessage::Binary(b) => assert_eq!(b, bytes(WsMsg::CloseConnection)),
        other => panic!("{other:?}"),
    }
}

#[test]
fn both_ends_keep_the_same_connection() {
    let mut bridge: Connections<u8> = Connections::new();
    let mut device: Connections<u8> = Connections::new();
    let (replaced, told) = bridge.handle_new_connection(1, id());
    assert!(replaced.is_none());
    match device.handle_msg(told) {
        Action::Connect(opened, addr) => {
            assert!(opened.same(&id()));
            assert_eq!(addr, "127.0.0.1:7681");
            assert_eq!(device.add_connection(2, opened), None);
        }
        other => panic!("{other:?}"),
    }
    match device.handle_msg(sent(Transmitted::data(id(), vec![4]))) {
        Action::Tell(to, ConnMsg::Data(data)) => {
            assert!(to.same(&id()));
            assert_eq!(data, vec![4]);
            assert_eq!(device.get_connection(&to), Some(&2));
        }
        other => panic!("{other:?}"),
    }
    assert!(matches!(
        device.handle_msg(sent(Transmitted::eot(id()))),
        Action::Tell(_, ConnMsg::Eot)
    ));
    assert!(matches!(
        device.handle_msg(sent(Transmitted::close(id()))),
        Action::Close(2, ConnMsg::Close)
    ));
    assert_eq!(device.len(), 0);
    assert_eq!(bridge.len(), 1);
}

#[test]
fn unknown_connections_are_discarded() {
    let mut device: Connections<u8> = Connections::new();
    device.add_connection(2, Id::new(1, "HOST".to_string()));
    for msg in [
        Transmitted::data(id(), vec![4]),
        Transmitted::eot(id()),
        Transmitted::close(id()),
    ] {
        assert!(matches!(device.handle_msg(sent(msg)), Action::Nothing));
    }
    assert_eq!(device.len(), 1);
    assert!(matches!(
        device.handle_msg(TungMessage::Text("x".to_string())),
        Action::Nothing
    ));
}

#[test]
fn unreadable_messages_are_noticed() {
    let mut device: Connections<u8> = Connections::new();
    assert!(device.handle_msg_checked(TungMessage::Binary(vec![0xff])).is_none());
    assert!(device.handle_msg_checked(TungMessage::Binary(Vec::new())).is_none());
    assert!(matches!(
        device.handle_msg_checked(TungMessage::Ping(Vec::new())),
        Some(Action::Nothing)
    ));
    assert!(matches!(
        device.handle_msg_checked(TungMessage::Binary(bytes(WsMsg::NewConnection))),
        Some(Action::Connect(_, _))
    ));
}

#[test]
fn device_stream_items() {
    assert!(matches!(
        device_next(Some(Ok(TungMessage::Ping(Vec::new())))),
        Next::Handle(TungMessage::Ping(_))
    ));
    assert!(matches!(
        device_next(Some(Err(tungstenite::Error::Utf8))),
        Next::Report(tungstenite::Error::Utf8)
    ));
    assert!(matches!(device_next(None), Next::Stop));
    assert!(recv_tcp(None).is_none());
}
