use forwarder::header_map::{checked_headers, first_headers, hashmap_to_headermap, headermap_to_hashmap};
use forwarder::headers::Headers;
use forwarder::proto;
use forwarder::proto_message::{
    request_answered, upgrade_opened, Http, HttpRequest, HttpResponse, HttpUpgrade, Method,
    ProtoError, ProtoMessage, Protocol, UpgradeResponse, WebSocket, WebSocketMessage,
};
use forwarder::tung_message::{CloseFrame, TungMessage};
use forwarder::wire::{decode, encode_to_vec};
use reqwest::header::{HeaderMap, HeaderName, HeaderValue};

fn headers(entries: &[(&str, &str)]) -> Headers {
    let mut headers = Headers::new();
    for (name, value) in entries {
        headers.insert(name.to_string(), value.to_string());
    }
    headers
}

fn wire_request(method: &str, port: u32) -> proto::http::Request {
    proto::http::Request {
        request_id: b"r1".to_vec(),
        path: "shell".to_string(),
        method: method.to_string(),
        querystring: Some("?a=1".to_string()),
        headers: headers(&[("Upgrade", "websocket"), ("X-A", "1"), ("x-a", "2")]),
        payload: Some(b"body".to_vec()),
        port,
    }
}

fn request(method: &str, port: u32) -> HttpRequest {
    HttpRequest::from(wire_request(method, port))
}

fn web_socket(message: WebSocketMessage) -> ProtoMessage {
    ProtoMessage::new(Protocol::WebSocket(WebSocket::new(b"id1".to_vec(), message)))
}

#[test]
fn ping_bytes() {
    let msg = web_socket(WebSocketMessage::ping(b"ab".to_vec()));
    let bytes = msg.encode().unwrap();
    assert_eq!(
        bytes,
        vec![0x12, 9, 0x0a, 3, b'i', b'd', b'1', 0x22, 2, b'a', b'b']
    );
}

#[test]
fn close_bytes() {
    let msg = web_socket(WebSocketMessage::close(1000, Some("x".to_string())));
    let bytes = msg.encode().unwrap();
    assert_eq!(
        bytes,
        vec![
            0x12, 13, 0x0a, 3, b'i', b'd', b'1', 0x32, 6, 0x08, 0xe8, 0x07, 0x12, 1, b'x'
        ]
    );
}

#[test]
fn empty_content_is_still_written() {
    let msg = ProtoMessage::new(Protocol::WebSocket(WebSocket::new(
        Vec::new(),
        WebSocketMessage::binary(Vec::new()),
    )));
    assert_eq!(msg.encode().unwrap(), vec![0x12, 2, 0x1a, 0]);
}

#[test]
fn response_bytes() {
    let res = HttpResponse::new(b"r", 200, headers(&[("a", "b")]), Vec::new());
    let msg = ProtoMessage::new(Protocol::Http(Http::Response(res)));
    assert_eq!(
        msg.encode().unwrap(),
        vec![
            0x0a, 16, 0x12, 14, 0x0a, 1, b'r', 0x10, 0xc8, 0x01, 0x1a, 6, 0x0a, 1, b'a', 0x12, 1,
            b'b'
        ]
    );
}

#[test]
fn contents_survive_the_wire() {
    for message in [
        WebSocketMessage::text("h\u{e9}llo".to_string()),
        WebSocketMessage::binary(vec![0, 255]),
        WebSocketMessage::ping(Vec::new()),
        WebSocketMessage::pong(vec![1, 2, 3]),
        WebSocketMessage::close(4000, Some("bye".to_string())),
        WebSocketMessage::close(0, None),
    ] {
        let expected = format!("{:?}", web_socket(message));
        let again = match ProtoMessage::decode(&web_socket_bytes(&expected)) {
            Ok(msg) => msg,
            Err(err) => panic!("{err:?}"),
        };
        assert_eq!(format!("{again:?}"), expected);
    }
}

// the bytes of one of the messages above, found again by how it prints
fn web_socket_bytes(expected: &str) -> Vec<u8> {
    for message in [
        WebSocketMessage::text("h\u{e9}llo".to_string()),
        WebSocketMessage::binary(vec![0, 255]),
        WebSocketMessage::ping(Vec::new()),
        WebSocketMessage::pong(vec![1, 2, 3]),
        WebSocketMessage::close(4000, Some("bye".to_string())),
        WebSocketMessage::close(0, None),
    ] {
        let msg = web_socket(message);
        if format!("{msg:?}") == expected {
            return msg.encode().unwrap();
        }
    }
    unreachable!()
}

#[test]
fn request_loses_its_port() {
    let req = request("GET", 8080);
    assert_eq!(req.local_url(), "ws://localhost:8080/shell?a=1");
    let bytes = ProtoMessage::new(Protocol::Http(Http::Request(req))).encode().unwrap();
    match ProtoMessage::decode(&bytes).unwrap().protocol() {
        Protocol::Http(Http::Request(req)) => {
            assert_eq!(req.local_url(), "ws://localhost:0/shell?a=1");
            assert!(req.is_connection_upgrade());
        }
        other => panic!("{other:?}"),
    }
}

#[test]
fn empty_query_and_payload_are_left_out() {
    let req = HttpRequest::from(proto::http::Request {
        request_id: Vec::new(),
        path: String::new(),
        method: String::new(),
        querystring: Some(String::new()),
        headers: Headers::new(),
        payload: Some(Vec::new()),
        port: 0,
    });
    let bytes = ProtoMessage::new(Protocol::Http(Http::Request(req))).encode().unwrap();
    assert_eq!(bytes, vec![0x0a, 2, 0x0a, 0]);
}

#[test]
fn numbers_are_cut_to_their_lower_half() {
    assert_eq!(
        request("GET", 0x1_0050).local_url(),
        "ws://localhost:80/shell?a=1"
    );
    let ws = proto::WebSocket {
        socket_id: Vec::new(),
        message: Some(proto::web_socket::Message::Close(proto::web_socket::Close {
            code: 0x2_03e8,
            reason: None,
        })),
    };
    let (_, message) = WebSocket::try_from(ws).unwrap().into_inner();
    assert!(matches!(message, WebSocketMessage::Close { code: 1000, reason: None }));
    let res = HttpResponse::from(proto::http::Response {
        request_id: Vec::new(),
        status_code: 0x1_00c8,
        headers: Headers::new(),
        payload: None,
    });
    let again = HttpResponse::new(&[], 200, Headers::new(), Vec::new());
    assert_eq!(format!("{res:?}"), format!("{again:?}"));
}

#[test]
fn malformed_bytes_are_refused() {
    assert!(matches!(
        ProtoMessage::decode(&[0x12, 9, 0x0a]),
        Err(ProtoError::Decode(_))
    ));
    assert!(matches!(
        ProtoMessage::decode_checked(&[0x12, 9, 0x0a]),
        Some(Err(ProtoError::Decode(_)))
    ));
}

#[test]
fn missing_contents_are_refused() {
    assert!(matches!(
        ProtoMessage::decode(&[0x0a, 0]),
        Err(ProtoError::EmptyHttpMessage)
    ));
    assert!(matches!(
        ProtoMessage::decode(&[0x12, 0]),
        Err(ProtoError::EmptyWsMessage)
    ));
    assert!(ProtoMessage::decode_checked(&[]).is_none());
    // unknown fields alone are no protocol either
    assert!(ProtoMessage::decode_checked(&[0x18, 1]).is_none());
}

#[test]
fn unknown_fields_are_skipped() {
    let mut bytes = vec![0x18, 0x96, 0x01, 0x25, 1, 2, 3, 4, 0x29, 1, 2, 3, 4, 5, 6, 7, 8];
    bytes.extend([0x33, 0x08, 1, 0x34]);
    bytes.extend([0x12, 4, 0x1a, 2, 5, 6]);
    let (id, message) = match ProtoMessage::decode(&bytes).unwrap().protocol() {
        Protocol::WebSocket(ws) => ws.into_inner(),
        other => panic!("{other:?}"),
    };
    assert!(id.is_empty());
    assert!(matches!(message, WebSocketMessage::Binary(data) if data == vec![5, 6]));
    // the group is not ended
    assert!(ProtoMessage::decode(&[0x33, 0x08, 1]).is_err());
}

#[test]
fn wire_messages_are_read_back() {
    let req = wire_request("GET", 7);
    let bytes = encode_to_vec(&req);
    let again: proto::http::Request = decode(&bytes).unwrap();
    assert_eq!(format!("{again:?}"), format!("{req:?}"));
    assert!(decode::<proto::http::Request>(&[0x12, 2, 0xff, 0xfe]).is_err());
}

#[test]
fn websocket_frames_become_contents() {
    let frame = CloseFrame {
        code: 1001,
        reason: "away".to_string(),
    };
    let msg = WebSocketMessage::try_from(TungMessage::Close(Some(frame))).unwrap();
    assert!(msg.is_close());
    match TungMessage::from(msg) {
        TungMessage::Close(Some(frame)) => {
            assert_eq!(frame.code, 1001);
            assert_eq!(frame.reason, "away");
        }
        other => panic!("{other:?}"),
    }
    assert!(matches!(
        WebSocketMessage::try_from(TungMessage::Close(None)),
        Ok(WebSocketMessage::Close { code: 1000, reason: None })
    ));
    assert!(matches!(
        ProtoMessage::try_from(TungMessage::Frame),
        Err(ProtoError::WrongWsFrame)
    ));
    assert!(!WebSocketMessage::text(String::new()).is_close());
    assert!(TungMessage::Close(None).is_close());
    assert!(!TungMessage::Pong(Vec::new()).is_close());
}

#[test]
fn normal_closure() {
    let (id, msg) = WebSocket::close(vec![9], Some("done".to_string())).into_inner();
    assert_eq!(id, vec![9]);
    assert!(
        matches!(msg, WebSocketMessage::Close { code: 1000, reason: Some(reason) } if reason == "done")
    );
}

#[test]
fn upgrade_header_is_told_apart_by_case() {
    assert!(request("GET", 1).is_connection_upgrade());
    let mut req = wire_request("GET", 1);
    req.headers = headers(&[("upgrade", "websocket")]);
    let req = HttpRequest::from(req);
    assert!(!req.is_connection_upgrade());
}

#[test]
fn send_prepares_the_request() {
    for (name, method) in [
        ("get", Method::Get),
        ("Delete", Method::Delete),
        ("HEAD", Method::Head),
        ("patch", Method::Patch),
        ("pOST", Method::Post),
        ("put", Method::Put),
    ] {
        let (id, req) = request(name, 7681).send().unwrap();
        assert_eq!(id, b"r1".to_vec());
        assert_eq!(req.method, method);
        assert_eq!(req.url.as_str(), "ws://localhost:7681/shell?a=1");
        assert_eq!(req.url.query(), Some("a=1"));
        assert_eq!(req.payload, b"body".to_vec());
        let values: Vec<&HeaderValue> = req.headers.get_all("x-a").iter().collect();
        assert_eq!(values, vec!["1", "2"]);
    }
}

#[test]
fn url_is_normalised() {
    let mut req = wire_request("GET", 80);
    req.path = "a b".to_string();
    req.querystring = None;
    let (_, req) = HttpRequest::from(req).send().unwrap();
    assert_eq!(req.url.as_str(), "ws://localhost/a%20b");
    assert_eq!(req.url.query(), None);
}

#[test]
fn unknown_method_is_refused() {
    assert!(matches!(
        request("trace", 1).send(),
        Err(ProtoError::WrongHttpMethod(method)) if method == "TRACE"
    ));
    assert!(matches!(
        request("Tr\u{e4}ce", 1).upgrade(),
        Err(ProtoError::WrongHttpMethod(method)) if method == "TR\u{e4}CE"
    ));
}

#[test]
fn malformed_url_comes_before_the_method() {
    let err = url::Url::parse("").unwrap_err();
    assert!(matches!(
        request("trace", 1).send_to(Err(err)),
        Err(ProtoError::ParseUrl(url::ParseError::RelativeUrlWithoutBase))
    ));
}

#[test]
fn malformed_uri_comes_after_the_method() {
    let mut req = wire_request("GET", 1);
    req.path = "a b".to_string();
    assert!(matches!(
        HttpRequest::from(req).upgrade(),
        Err(ProtoError::Http(_))
    ));
    let mut req = wire_request("trace", 1);
    req.path = "a b".to_string();
    assert!(matches!(
        HttpRequest::from(req).upgrade(),
        Err(ProtoError::WrongHttpMethod(_))
    ));
}

#[test]
fn upgrade_sends_first_values_only() {
    let (id, req) = request("get", 7681).upgrade().unwrap();
    assert_eq!(id, b"r1".to_vec());
    assert_eq!(req.method, Method::Get);
    assert_eq!(req.uri, "ws://localhost:7681/shell?a=1");
    let values: Vec<&HeaderValue> = req.headers.get_all("x-a").iter().collect();
    assert_eq!(values, vec!["1"]);
    assert_eq!(req.headers.get("upgrade").unwrap(), "websocket");
    assert_eq!(req.headers.len(), 2);
}

#[test]
fn malformed_headers_are_left_out() {
    let all = headers(&[
        ("Good-Name", "v\t1"),
        ("bad name", "v"),
        ("", "v"),
        ("bad-value", "a\nb"),
        ("deleted", "\u{7f}"),
        ("latin", "\u{e9}"),
        ("!#$%&'*+-.^_`|~09AZaz", "x"),
        ("bad(name)", "v"),
        ("bad/name", "v"),
        ("b\u{e4}d", "v"),
    ]);
    let map = hashmap_to_headermap(&all).unwrap();
    assert_eq!(map.len(), 3);
    assert_eq!(map.get("good-name").unwrap(), "v\t1");
    assert_eq!(map.get("latin").unwrap().as_bytes(), "\u{e9}".as_bytes());
    assert_eq!(map.get("!#$%&'*+-.^_`|~09azaz").unwrap(), "x");
    let first = first_headers(&all).unwrap();
    assert_eq!(first, map);
}

#[test]
fn long_names_are_left_out() {
    let all = headers(&[(&"a".repeat(65535), "1"), (&"b".repeat(65536), "2")]);
    let map = hashmap_to_headermap(&all).unwrap();
    assert_eq!(map.len(), 1);
    assert!(map.contains_key("a".repeat(65535).as_str()));
}

#[test]
fn last_value_of_a_name_counts() {
    let mut map = HeaderMap::new();
    map.append(HeaderName::from_static("set-cookie"), HeaderValue::from_static("a"));
    map.append(HeaderName::from_static("set-cookie"), HeaderValue::from_static("b"));
    map.append(HeaderName::from_static("server"), HeaderValue::from_static("ttyd"));
    let headers = headermap_to_hashmap(&map);
    assert_eq!(headers.len(), 2);
    assert_eq!(headers.get(&"set-cookie".to_string()), Some(&"b".to_string()));
    assert_eq!(headers.get(&"server".to_string()), Some(&"ttyd".to_string()));
    assert!(headers.contains_key(&"server".to_string()));
    assert!(!headers.contains_key(&"Server".to_string()));
}

#[test]
fn values_that_are_no_text_are_noticed() {
    let mut map = HeaderMap::new();
    map.append(HeaderName::from_static("a"), HeaderValue::from_bytes(&[0xe9]).unwrap());
    map.append(HeaderName::from_static("a"), HeaderValue::from_static("b"));
    assert!(checked_headers(&map).is_none());
    assert!(checked_headers(&HeaderMap::new()).is_some());
}

#[test]
fn opened_upgrade_is_taken_apart_again() {
    let res = UpgradeResponse {
        status_code: 101,
        headers: HeaderMap::new(),
        body: None,
    };
    let upgrade: HttpUpgrade<u8> = upgrade_opened(b"r1".to_vec(), Ok((5u8, res))).unwrap();
    let (id, stream, res) = upgrade.into_inner();
    assert_eq!(id, b"r1".to_vec());
    assert_eq!(stream, 5);
    assert_eq!(res.status_code, 101);
    assert!(matches!(
        upgrade_opened::<u8>(Vec::new(), Err(tungstenite::Error::ConnectionClosed)),
        Err(ProtoError::WebSocketConnect(tungstenite::Error::ConnectionClosed))
    ));
}

#[test]
fn failed_request_is_told() {
    let err = reqwest::Client::new().get("no url").build().unwrap_err();
    assert!(matches!(
        request_answered::<u8>(Vec::new(), Err(err)),
        Err(ProtoError::Reqwest(_))
    ));
    let (id, res) = request_answered(vec![1], Ok(2u8)).unwrap();
    assert_eq!(id, vec![1]);
    assert_eq!(res, 2);
}

#[test]
fn characters_of_a_header_name() {
    let others = "!\"#$%&'*+-.^_`|~";
    for c in (0u8..128).map(char::from) {
        let map = hashmap_to_headermap(&headers(&[(&c.to_string(), "v")])).unwrap();
        let expected = c.is_ascii_alphanumeric() || others.contains(c);
        assert_eq!(map.len(), usize::from(expected), "{c:?}");
        if expected {
            assert!(map.contains_key(c.to_ascii_lowercase().to_string().as_str()));
        }
    }
}

#[test]
fn characters_of_a_header_value() {
    for c in (0u8..128).map(char::from) {
        let map = hashmap_to_headermap(&headers(&[("n", &c.to_string())])).unwrap();
        assert_eq!(map.len(), usize::from(c == '\t' || !c.is_ascii_control()), "{c:?}");
    }
}

#[test]
fn plain_headers_are_read_back() {
    let all = headers(&[("host", "localhost"), ("x-tab", "a\tb"), ("accept", "*/*")]);
    let again = headermap_to_hashmap(&hashmap_to_headermap(&all).unwrap());
    assert_eq!(again.len(), 3);
    for i in 0..all.len() {
        let (name, value) = all.entry(i);
        assert_eq!(again.get(name), Some(value));
    }
    assert_eq!(first_headers(&all).unwrap(), hashmap_to_headermap(&all).unwrap());
}

fn numbered(n: usize) -> Headers {
    let mut headers = Headers::new();
    for i in 0..n {
        headers.insert(format!("h{i}"), i.to_string());
    }
    headers
}

#[test]
fn many_headers_are_read_back() {
    let all = numbered(7000);
    let again = headermap_to_hashmap(&hashmap_to_headermap(&all).unwrap());
    assert_eq!(again.len(), 7000);
    assert_eq!(again.get(&"h6999".to_string()), Some(&"6999".to_string()));
}

#[test]
fn too_many_headers_are_refused() {
    let mut req = wire_request("get", 1);
    req.headers = numbered(24577);
    assert!(hashmap_to_headermap(&req.headers).is_none());
    assert!(first_headers(&req.headers).is_none());
    assert!(matches!(
        HttpRequest::from(req).send(),
        Err(ProtoError::TooManyHeaders)
    ));
}

// a group of unknown fields inside another, so many deep
fn groups(depth: usize) -> Vec<u8> {
    let mut bytes = vec![0x3b; depth];
    bytes.extend(vec![0x3c; depth]);
    bytes
}

#[test]
fn groups_nest_up_to_a_limit() {
    for (outer, limit) in [(vec![], 100), (vec![0x12], 99), (vec![0x0a], 99)] {
        for (depth, accepted) in [(1, true), (limit, true), (limit + 1, false)] {
            let body = groups(depth);
            let mut bytes: Vec<u8> = outer.clone();
            if !outer.is_empty() {
                assert!(body.len() >= 128 || depth == 1);
                if body.len() >= 128 {
                    bytes.push((body.len() % 128) as u8 + 128);
                    bytes.push((body.len() / 128) as u8);
                } else {
                    bytes.push(body.len() as u8);
                }
            }
            bytes.extend(body);
            assert_eq!(
                decode::<proto::Message>(&bytes).is_ok(),
                accepted,
                "{outer:?} {depth}"
            );
        }
    }
    // a group that is closed with another tag
    assert!(decode::<proto::Message>(&[0x3b, 0x44]).is_err());
    // fields of every kind inside a group
    let inner = [
        0x3b, 0x08, 1, 0x11, 1, 2, 3, 4, 5, 6, 7, 8, 0x1a, 2, 9, 9, 0x25, 1, 2, 3, 4, 0x3c,
    ];
    assert!(decode::<proto::Message>(&inner).is_ok());
    assert!(decode::<proto::Message>(&inner[..20]).is_err());
}
