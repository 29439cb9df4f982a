use forwarder::astarte::{connection_info, retrieve_url, AstarteType, ConnectionInfo};
use forwarder::astarte::Error as AstarteError;
use forwarder::connection::ConnectionError;
use forwarder::connections::{Action, Turn, WebSocketOperation};
use forwarder::device::{carried_out, finish, handle_connections, opened, DeviceError};
use forwarder::forwarder::{Error, Forwarder};
use forwarder::tung_message::TungMessage;
use forwarder::vec_map::VecMap;
use forwarder::web_url::{session_token, Host, Url};

fn values(host: &str, port: i32, token: &str) -> VecMap<String, AstarteType> {
    let mut map = VecMap::new();
    map.insert("host".to_string(), AstarteType::String(host.to_string()));
    map.insert("port".to_string(), AstarteType::Integer(port));
    map.insert("session_token".to_string(), AstarteType::String(token.to_string()));
    map
}

fn info(host: Host) -> ConnectionInfo {
    ConnectionInfo::new(host, 4000, "abc".to_string())
}

#[test]
fn url_of_domain() {
    let url = retrieve_url(&values("Kaiki.Local", 4000, "abc")).unwrap();
    assert_eq!(url.as_str(), "ws://kaiki.local:4000/path?session_token=abc");
    assert_eq!(url.query(), Some("session_token=abc"));
    assert_eq!(session_token(&url), "session_token=abc");
}

#[test]
fn url_of_addresses() {
    let url = retrieve_url(&values("127.0.0.1", 80, "t")).unwrap();
    assert_eq!(url.as_str(), "ws://localhost/path?session_token=t");
    let url = retrieve_url(&values("192.168.122.36", 8080, "t")).unwrap();
    assert_eq!(url.as_str(), "ws://192.168.122.36:8080/path?session_token=t");
    let url = retrieve_url(&values("[::1]", 65535, "t")).unwrap();
    assert_eq!(url.as_str(), "ws://[::1]:65535/path?session_token=t");
}

#[test]
fn url_text_of_info() {
    assert_eq!(
        info(Host::Ipv4(0x7f00_0001)).url_text(),
        "ws://localhost:4000/path?session_token=abc"
    );
    assert_eq!(
        info(Host::Ipv4(0x0a00_01ff)).url_text(),
        "ws://10.0.1.255:4000/path?session_token=abc"
    );
    assert_eq!(
        info(Host::Ipv6(1)).url_text(),
        "ws://[::1]:4000/path?session_token=abc"
    );
    assert_eq!(
        info(Host::Domain("a.b".to_string())).url_text(),
        "ws://a.b:4000/path?session_token=abc"
    );
}

#[test]
fn aggregate_makes_the_url_again() {
    for host in [
        Host::Domain("kaiki.local".to_string()),
        Host::Ipv4(0x0a00_0001),
        Host::Ipv6(0x1234_0000_0000_0000_0000_0000_0000_0001),
    ] {
        let expected = info(host);
        let text = expected.url_text();
        let map = expected.astarte_aggregate().unwrap();
        assert_eq!(map.len(), 3);
        assert!(matches!(map.get(&"port".to_string()), Some(AstarteType::Integer(4000))));
        assert_eq!(retrieve_url(&map).unwrap().as_str(), text);
    }
}

#[test]
fn missing_values_are_told_in_order() {
    let mut map: VecMap<String, AstarteType> = VecMap::new();
    for (missing, name) in [
        ("Missing host (IP or domain name)", "host"),
        ("Missing port value", "port"),
        ("Missing session_token", "session_token"),
    ] {
        assert!(matches!(
            retrieve_url(&map),
            Err(AstarteError::MissingUrlInfo(info)) if info == missing
        ));
        map.insert(name.to_string(), AstarteType::Other);
    }
    assert!(matches!(retrieve_url(&map), Err(AstarteError::AstarteWrongType)));
}

#[test]
fn wrong_types_are_told() {
    let mut map = values("h", 1, "t");
    map.insert("port".to_string(), AstarteType::String("1".to_string()));
    assert!(matches!(retrieve_url(&map), Err(AstarteError::AstarteWrongType)));
    let mut map = values("h", 1, "t");
    map.insert("host".to_string(), AstarteType::Integer(1));
    assert!(matches!(retrieve_url(&map), Err(AstarteError::AstarteWrongType)));
}

#[test]
fn malformed_values_are_told() {
    assert!(matches!(
        retrieve_url(&values("", 1, "t")),
        Err(AstarteError::Parse(url::ParseError::EmptyHost))
    ));
    assert!(matches!(
        retrieve_url(&values("h", 65536, "t")),
        Err(AstarteError::ParsePort(_))
    ));
    assert!(matches!(
        retrieve_url(&values("h", -1, "t")),
        Err(AstarteError::ParsePort(_))
    ));
    // the host is told before the port
    assert!(matches!(
        retrieve_url(&values("", -1, "t")),
        Err(AstarteError::Parse(_))
    ));
    assert!(matches!(
        connection_info(Err(url::ParseError::IdnaError), -1, String::new()),
        Err(AstarteError::Parse(url::ParseError::IdnaError))
    ));
}

#[test]
fn malformed_url_is_told() {
    let cinfo = info(Host::Domain("a b".to_string()));
    assert!(matches!(Url::try_from(cinfo), Err(AstarteError::Parse(_))));
    let forwarder: Forwarder<u8, u8> = Forwarder::default();
    assert!(matches!(
        forwarder.connect(info(Host::Domain("a b".to_string()))),
        Err(Error::Astarte(AstarteError::Parse(_)))
    ));
}

#[test]
fn forwarder_connects_once() {
    let mut forwarder: Forwarder<u8, &str> = Forwarder::default();
    assert!(!forwarder.is_connected());
    assert!(matches!(
        forwarder.handle_connections(WebSocketOperation::Ping),
        Err(Error::NonExistingConnection)
    ));
    assert!(matches!(forwarder.connections_mut(), Err(Error::NonExistingConnection)));
    let url = forwarder.connect(info(Host::Ipv4(0x7f00_0001))).unwrap().unwrap();
    assert_eq!(url.as_str(), "ws://localhost:4000/path?session_token=abc");
    assert!(matches!(
        forwarder.connected(url.clone(), Err(tungstenite::Error::ConnectionClosed)),
        Err(Error::WebSocketConnect(tungstenite::Error::ConnectionClosed))
    ));
    assert!(!forwarder.is_connected());
    assert!(forwarder.connected(url, Ok("stream")).is_ok());
    assert!(forwarder.is_connected());
    assert!(forwarder.connect(info(Host::Ipv4(1))).unwrap().is_none());
    assert_eq!(*forwarder.connections_mut().unwrap().ws_stream_mut(), "stream");
    assert!(matches!(
        forwarder.handle_connections(WebSocketOperation::Ping),
        Ok(Turn::Act(Action::Send(TungMessage::Ping(_))))
    ));
    assert!(forwarder.handle_connections_checked(WebSocketOperation::Send(None)).is_none());
    assert!(matches!(
        forwarder.handle_connections_checked(WebSocketOperation::Receive(None)),
        Some(Ok(Turn::Stop))
    ));
    // the stream has ended
    assert!(!forwarder.is_connected());
    let url = forwarder.connect(info(Host::Ipv4(1))).unwrap().unwrap();
    assert_eq!(url.as_str(), "ws://0.0.0.1:4000/path?session_token=abc");
    assert!(forwarder.connected(url, Ok("other")).is_ok());
    assert!(forwarder.is_connected());
    assert_eq!(*forwarder.connections_mut().unwrap().ws_stream_mut(), "other");
}

#[test]
fn ended_device_keeps_its_connection() {
    let mut forwarder: Forwarder<u8, &str> = Forwarder::default();
    let url = forwarder.connect(info(Host::Ipv4(1))).unwrap().unwrap();
    forwarder.connected(url, Ok("stream")).unwrap();
    assert!(matches!(
        forwarder.handle_connections(WebSocketOperation::Receive(None)),
        Ok(Turn::Stop)
    ));
    assert_eq!(*forwarder.connections_mut().unwrap().ws_stream_mut(), "stream");
    assert!(matches!(
        forwarder.handle_connections(WebSocketOperation::Receive(None)),
        Ok(Turn::Stop)
    ));
}

#[test]
fn plain_hosts_are_read_as_printed() {
    for text in ["Example.COM", "0x7f.1", "[::FFFF:1.2.3.4]", "[1:0:0:2::]", "a_b.", "%41b", "b\u{fc}cher.example", "XN--BCHER-KVA"] {
        let host = Host::parse(text).unwrap();
        let expected = ConnectionInfo::new(host.clone(), 1, String::new());
        let copy = expected.clone();
        assert_eq!(copy.url_text(), expected.url_text());
        let map = copy.astarte_aggregate().unwrap();
        assert_eq!(
            retrieve_url(&map).unwrap().as_str(),
            Url::try_from(expected).unwrap().as_str(),
        );
        let again = match map.get(&"host".to_string()) {
            Some(AstarteType::String(printed)) => Host::parse(printed).unwrap(),
            other => panic!("{other:?}"),
        };
        assert_eq!(format!("{again:?}"), format!("{host:?}"));
    }
}

#[test]
fn long_internationalised_label_is_not_read_as_printed() {
    let label: String = (0..1000).filter_map(|i| char::from_u32(0x4e00 + 20 * i)).collect();
    match Host::parse(&label).unwrap() {
        Host::Domain(printed) => {
            assert!(printed.starts_with("xn--"));
            assert!(Host::parse(&printed).is_err());
            let expected = info(Host::Domain(printed));
            let map = expected.clone().astarte_aggregate().unwrap();
            assert!(matches!(
                (retrieve_url(&map), Url::try_from(expected)),
                (
                    Err(AstarteError::Parse(url::ParseError::IdnaError)),
                    Err(AstarteError::Parse(url::ParseError::IdnaError))
                )
            ));
        }
        other => panic!("{other:?}"),
    }
}

#[test]
fn device_opens_and_ends() {
    let url = Url::parse("ws://localhost:4000/?session=1").unwrap();
    let mut handler = opened::<u8, u8>(url.clone(), Ok(3)).unwrap();
    assert_eq!(*handler.ws_stream_mut(), 3);
    assert_eq!(handler.get_url().as_str(), "ws://localhost:4000/?session=1");
    assert!(matches!(
        opened::<u8, u8>(url, Err(tungstenite::Error::Utf8)),
        Err(DeviceError::WebSocketConnect(tungstenite::Error::Utf8))
    ));
    assert!(matches!(
        handle_connections(&mut handler, WebSocketOperation::Ping),
        Ok(Turn::Act(Action::Send(TungMessage::Ping(_))))
    ));
    assert!(matches!(
        handle_connections(&mut handler, WebSocketOperation::Receive(None)),
        Ok(Turn::Stop)
    ));
    assert!(matches!(carried_out(Ok(true)), Ok(true)));
    assert!(matches!(carried_out(Ok(false)), Ok(false)));
    assert!(matches!(
        carried_out(Err(ConnectionError::Reconnect(tungstenite::Error::Utf8))),
        Err(DeviceError::Connection(ConnectionError::Reconnect(tungstenite::Error::Utf8)))
    ));
    assert!(finish::<u8>(Ok(Ok(()))).is_ok());
    assert!(finish::<u8>(Err(1)).is_ok());
    let err = DeviceError::Astarte(AstarteError::AstarteWrongType);
    assert!(matches!(
        finish::<u8>(Ok(Err(err))),
        Err(DeviceError::Astarte(AstarteError::AstarteWrongType))
    ));
}

#[test]
fn url_keeps_its_query() {
    let url = Url::parse("HTTP://Example.COM:80/a?b#c").unwrap();
    assert_eq!(url.as_str(), "http://example.com/a?b#c");
    assert_eq!(url.query(), Some("b"));
    assert_eq!(Url::parse("http://e/").unwrap().query(), None);
    assert!(Url::parse("no url").is_err());
}
