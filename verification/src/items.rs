//! The Protobuf messages exchanged between the two ends of a tunnel, as they stand on the wire.
//!
//! The fields of a message are numbered from one, in the order in which the message lists them.

use prost::DecodeError;
use vstd::prelude::*;
use vstd::utf8::*;

use crate::items::ws_msg::{WsMsgType, WsMsgTypeModel};
use crate::wire;
use crate::wire::{WireMessage, WireType};

pub mod ws_msg;

verus! {

/// A message without fields.
#[derive(Debug)]
pub struct Empty {}

impl View for Empty {
    type V = ();

    open spec fn view(&self) -> () {
        ()
    }
}

impl WireMessage for Empty {
    open spec fn initial() -> () {
        ()
    }

    open spec fn read_field(
        m: (),
        tag: u32,
        wire: WireType,
        s: Seq<u8>,
        depth: u32,
    ) -> Option<((), Seq<u8>)> {
        match wire::skipped(tag, wire, s, depth) {
            Some(rest) => Some((m, rest)),
            None => None,
        }
    }

    open spec fn bytes_of(m: ()) -> Seq<u8> {
        Seq::empty()
    }

    fn empty() -> (r: Self) {
        Empty {  }
    }

    fn merge_field<'a>(self, tag: u32, wire: WireType, buf: &'a [u8], depth: u32) -> (r: Result<
        (Self, &'a [u8]),
        DecodeError,
    >) {
        let rest = wire::skip_field(tag, wire, buf, depth)?;
        Ok((self, rest))
    }

    fn encode_raw(&self, buf: &mut Vec<u8>) {
        assert(buf@ =~= buf@ + Seq::<u8>::empty());
    }
}

/// Bytes that travel through a tunnel, on the wire.
#[derive(Debug)]
pub struct Data {
    pub data: Vec<u8>,
}

impl View for Data {
    type V = Seq<u8>;

    open spec fn view(&self) -> Seq<u8> {
        self.data@
    }
}

impl WireMessage for Data {
    open spec fn initial() -> Seq<u8> {
        Seq::empty()
    }

    open spec fn read_field(
        m: Seq<u8>,
        tag: u32,
        wire: WireType,
        s: Seq<u8>,
        depth: u32,
    ) -> Option<(Seq<u8>, Seq<u8>)> {
        if tag == 1 {
            wire::read_bytes(wire, s)
        } else {
            match wire::skipped(tag, wire, s, depth) {
                Some(rest) => Some((m, rest)),
                None => None,
            }
        }
    }

    open spec fn bytes_of(m: Seq<u8>) -> Seq<u8> {
        wire::implicit_bytes(1, m)
    }

    fn empty() -> (r: Self) {
        Data { data: Vec::new() }
    }

    fn merge_field<'a>(self, tag: u32, wire: WireType, buf: &'a [u8], depth: u32) -> (r: Result<
        (Self, &'a [u8]),
        DecodeError,
    >) {
        proof {
            wire::lemma_read_value_shorter(wire, buf@);
        }
        if tag == 1 {
            let (data, rest) = wire::decode_bytes(wire, buf)?;
            Ok((Data { data }, rest))
        } else {
            let rest = wire::skip_field(tag, wire, buf, depth)?;
            Ok((self, rest))
        }
    }

    fn encode_raw(&self, buf: &mut Vec<u8>) {
        wire::put_bytes(1, &self.data, buf);
    }
}

/// Tunnelled bytes are read back as they were written, however deep they stand.
pub proof fn law_data_round_trip(m: Seq<u8>, depth: u32)
    requires
        Data::bytes_of(m).len() <= u64::MAX,
    ensures
        wire::read_fields::<Data>(Data::initial(), Data::bytes_of(m), depth) == Some(m),
{
    let none = Seq::<u8>::empty();
    assert(m.len() == 0 ==> m =~= Seq::<u8>::empty());
    wire::lemma_implicit_bytes::<Data>(Data::initial(), 1, m, m, none, depth);
    assert(Data::bytes_of(m) + none =~= Data::bytes_of(m));
    assert(wire::read_fields::<Data>(m, none, depth) == Some(m));
}

/// What the identity of a connection on the wire holds.
pub struct IdModel {
    pub port: u32,
    pub host: Seq<char>,
}

/// The identity of a connection on the wire.
#[derive(Debug)]
pub struct Id {
    pub port: u32,
    pub host: String,
}

impl View for Id {
    type V = IdModel;

    open spec fn view(&self) -> IdModel {
        IdModel { port: self.port, host: self.host@ }
    }
}

impl WireMessage for Id {
    open spec fn initial() -> IdModel {
        IdModel { port: 0, host: Seq::empty() }
    }

    open spec fn read_field(
        m: IdModel,
        tag: u32,
        wire: WireType,
        s: Seq<u8>,
        depth: u32,
    ) -> Option<(IdModel, Seq<u8>)> {
        if tag == 1 {
            match wire::read_uint32(wire, s) {
                Some((v, rest)) => Some((IdModel { port: v, ..m }, rest)),
                None => None,
            }
        } else if tag == 2 {
            match wire::read_string(wire, s) {
                Some((v, rest)) => Some((IdModel { host: v, ..m }, rest)),
                None => None,
            }
        } else {
            match wire::skipped(tag, wire, s, depth) {
                Some(rest) => Some((m, rest)),
                None => None,
            }
        }
    }

    open spec fn bytes_of(m: IdModel) -> Seq<u8> {
        wire::implicit_uint32(1, m.port) + wire::implicit_string(2, m.host)
    }

    fn empty() -> (r: Self) {
        Id { port: 0, host: String::new() }
    }

    fn merge_field<'a>(self, tag: u32, wire: WireType, buf: &'a [u8], depth: u32) -> (r: Result<
        (Self, &'a [u8]),
        DecodeError,
    >) {
        proof {
            wire::lemma_read_value_shorter(wire, buf@);
        }
        if tag == 1 {
            let (port, rest) = wire::decode_uint32(wire, buf)?;
            Ok((Id { port, host: self.host }, rest))
        } else if tag == 2 {
            let (host, rest) = wire::decode_string(wire, buf)?;
            Ok((Id { port: self.port, host }, rest))
        } else {
            let rest = wire::skip_field(tag, wire, buf, depth)?;
            Ok((self, rest))
        }
    }

    fn encode_raw(&self, buf: &mut Vec<u8>) {
        wire::put_uint32(1, self.port, buf);
        wire::put_string(2, &self.host, buf);
    }
}

/// The identity of a connection is read back as it was written, however deep it stands.
pub proof fn law_id_round_trip(m: IdModel, depth: u32)
    requires
        Id::bytes_of(m).len() <= u64::MAX,
    ensures
        wire::read_fields::<Id>(Id::initial(), Id::bytes_of(m), depth) == Some(m),
{
    let none = Seq::<u8>::empty();
    let s2 = wire::implicit_string(2, m.host) + none;
    let m1 = IdModel { port: m.port, host: Seq::empty() };
    assert(Id::bytes_of(m) =~= wire::implicit_uint32(1, m.port) + s2);
    assert(m.host.len() == 0 ==> m.host =~= Seq::<char>::empty());
    wire::lemma_implicit_uint32::<Id>(Id::initial(), 1, m.port, m1, s2, depth);
    wire::lemma_implicit_string::<Id>(m1, 2, m.host, m, none, depth);
    assert(wire::read_fields::<Id>(m, none, depth) == Some(m));
}

/// What a message of a tunnelled connection on the wire holds.
pub struct WsMsgModel {
    pub ws_msg_type: Option<WsMsgTypeModel>,
}

/// A message of a tunnelled connection on the wire.
#[derive(Debug)]
pub struct WsMsg {
    pub ws_msg_type: Option<WsMsgType>,
}

impl View for WsMsg {
    type V = WsMsgModel;

    open spec fn view(&self) -> WsMsgModel {
        WsMsgModel {
            ws_msg_type: match self.ws_msg_type {
                Some(m) => Some(m@),
                None => None,
            },
        }
    }
}

impl WireMessage for WsMsg {
    open spec fn initial() -> WsMsgModel {
        WsMsgModel { ws_msg_type: None }
    }

    open spec fn read_field(
        m: WsMsgModel,
        tag: u32,
        wire: WireType,
        s: Seq<u8>,
        depth: u32,
    ) -> Option<(WsMsgModel, Seq<u8>)> {
        if 1 <= tag <= 3 {
            match wire::read_nested::<Empty>((), wire, s, depth) {
                Some((_, rest)) => Some(
                    (
                        WsMsgModel {
                            ws_msg_type: Some(
                                if tag == 1 {
                                    WsMsgTypeModel::NewConnection
                                } else if tag == 2 {
                                    WsMsgTypeModel::Eot
                                } else {
                                    WsMsgTypeModel::CloseConnection
                                },
                            ),
                        },
                        rest,
                    ),
                ),
                None => None,
            }
        } else if tag == 4 {
            let before = match m.ws_msg_type {
                Some(WsMsgTypeModel::Data(v)) => v,
                _ => Data::initial(),
            };
            match wire::read_nested::<Data>(before, wire, s, depth) {
                Some((v, rest)) => Some(
                    (WsMsgModel { ws_msg_type: Some(WsMsgTypeModel::Data(v)) }, rest),
                ),
                None => None,
            }
        } else {
            match wire::skipped(tag, wire, s, depth) {
                Some(rest) => Some((m, rest)),
                None => None,
            }
        }
    }

    open spec fn bytes_of(m: WsMsgModel) -> Seq<u8> {
        match m.ws_msg_type {
            Some(WsMsgTypeModel::NewConnection) => wire::bytes_field(1, Seq::empty()),
            Some(WsMsgTypeModel::Eot) => wire::bytes_field(2, Seq::empty()),
            Some(WsMsgTypeModel::CloseConnection) => wire::bytes_field(3, Seq::empty()),
            Some(WsMsgTypeModel::Data(v)) => wire::bytes_field(4, Data::bytes_of(v)),
            None => Seq::empty(),
        }
    }

    fn empty() -> (r: Self) {
        WsMsg { ws_msg_type: None }
    }

    fn merge_field<'a>(self, tag: u32, wire: WireType, buf: &'a [u8], depth: u32) -> (r: Result<
        (Self, &'a [u8]),
        DecodeError,
    >) {
        if 1 <= tag && tag <= 3 {
            let (v, rest) = wire::decode_nested(Empty::empty(), wire, buf, depth)?;
            let ws_msg_type = if tag == 1 {
                WsMsgType::NewConnection(v)
            } else if tag == 2 {
                WsMsgType::Eot(v)
            } else {
                WsMsgType::CloseConnection(v)
            };
            Ok((WsMsg { ws_msg_type: Some(ws_msg_type) }, rest))
        } else if tag == 4 {
            let before = match self.ws_msg_type {
                Some(WsMsgType::Data(v)) => v,
                _ => Data::empty(),
            };
            let (v, rest) = wire::decode_nested(before, wire, buf, depth)?;
            Ok((WsMsg { ws_msg_type: Some(WsMsgType::Data(v)) }, rest))
        } else {
            let rest = wire::skip_field(tag, wire, buf, depth)?;
            Ok((self, rest))
        }
    }

    fn encode_raw(&self, buf: &mut Vec<u8>) {
        match &self.ws_msg_type {
            Some(WsMsgType::NewConnection(v)) => wire::encode_nested(1, v, buf),
            Some(WsMsgType::Eot(v)) => wire::encode_nested(2, v, buf),
            Some(WsMsgType::CloseConnection(v)) => wire::encode_nested(3, v, buf),
            Some(WsMsgType::Data(v)) => wire::encode_nested(4, v, buf),
            None => {},
        }
    }
}

/// A message of a tunnelled connection is read back as it was written, where one more level may
/// nest.
pub proof fn law_ws_msg_round_trip(m: WsMsgModel, depth: u32)
    requires
        1 <= depth,
        WsMsg::bytes_of(m).len() <= u64::MAX,
    ensures
        wire::read_fields::<WsMsg>(WsMsg::initial(), WsMsg::bytes_of(m), depth) == Some(m),
{
    let none = Seq::<u8>::empty();
    let m0 = WsMsg::initial();
    assert(wire::read_fields::<Empty>((), none, (depth - 1) as u32) == Some(()));
    match m.ws_msg_type {
        Some(WsMsgTypeModel::NewConnection) => {
            wire::lemma_bytes_then_rest::<WsMsg>(m0, 1, none, m, none, depth);
        },
        Some(WsMsgTypeModel::Eot) => {
            wire::lemma_bytes_then_rest::<WsMsg>(m0, 2, none, m, none, depth);
        },
        Some(WsMsgTypeModel::CloseConnection) => {
            wire::lemma_bytes_then_rest::<WsMsg>(m0, 3, none, m, none, depth);
        },
        Some(WsMsgTypeModel::Data(v)) => {
            law_data_round_trip(v, (depth - 1) as u32);
            wire::lemma_bytes_then_rest::<WsMsg>(m0, 4, Data::bytes_of(v), m, none, depth);
        },
        None => {},
    }
    assert(WsMsg::bytes_of(m) + none =~= WsMsg::bytes_of(m));
    assert(wire::read_fields::<WsMsg>(m, none, depth) == Some(m));
}

/// What a tunnelled message on the wire holds.
pub struct WsTransmittedModel {
    pub id: Option<IdModel>,
    pub msg: Option<WsMsgModel>,
}

/// A tunnelled message on the wire, and the connection it belongs to.
#[derive(Debug)]
pub struct WsTransmitted {
    pub id: Option<Id>,
    pub msg: Option<WsMsg>,
}

impl View for WsTransmitted {
    type V = WsTransmittedModel;

    open spec fn view(&self) -> WsTransmittedModel {
        WsTransmittedModel {
            id: match self.id {
                Some(m) => Some(m@),
                None => None,
            },
            msg: match self.msg {
                Some(m) => Some(m@),
                None => None,
            },
        }
    }
}

impl WireMessage for WsTransmitted {
    open spec fn initial() -> WsTransmittedModel {
        WsTransmittedModel { id: None, msg: None }
    }

    open spec fn read_field(
        m: WsTransmittedModel,
        tag: u32,
        wire: WireType,
        s: Seq<u8>,
        depth: u32,
    ) -> Option<(WsTransmittedModel, Seq<u8>)> {
        if tag == 1 {
            let before = match m.id {
                Some(v) => v,
                None => Id::initial(),
            };
            match wire::read_nested::<Id>(before, wire, s, depth) {
                Some((v, rest)) => Some((WsTransmittedModel { id: Some(v), ..m }, rest)),
                None => None,
            }
        } else if tag == 2 {
            let before = match m.msg {
                Some(v) => v,
                None => WsMsg::initial(),
            };
            match wire::read_nested::<WsMsg>(before, wire, s, depth) {
                Some((v, rest)) => Some((WsTransmittedModel { msg: Some(v), ..m }, rest)),
                None => None,
            }
        } else {
            match wire::skipped(tag, wire, s, depth) {
                Some(rest) => Some((m, rest)),
                None => None,
            }
        }
    }

    open spec fn bytes_of(m: WsTransmittedModel) -> Seq<u8> {
        id_bytes(m.id) + msg_bytes(m.msg)
    }

    fn empty() -> (r: Self) {
        WsTransmitted { id: None, msg: None }
    }

    fn merge_field<'a>(self, tag: u32, wire: WireType, buf: &'a [u8], depth: u32) -> (r: Result<
        (Self, &'a [u8]),
        DecodeError,
    >) {
        let WsTransmitted { id, msg } = self;
        if tag == 1 {
            let before = match id {
                Some(v) => v,
                None => Id::empty(),
            };
            let (v, rest) = wire::decode_nested(before, wire, buf, depth)?;
            Ok((WsTransmitted { id: Some(v), msg }, rest))
        } else if tag == 2 {
            let before = match msg {
                Some(v) => v,
                None => WsMsg::empty(),
            };
            let (v, rest) = wire::decode_nested(before, wire, buf, depth)?;
            Ok((WsTransmitted { id, msg: Some(v) }, rest))
        } else {
            let rest = wire::skip_field(tag, wire, buf, depth)?;
            Ok((WsTransmitted { id, msg }, rest))
        }
    }

    fn encode_raw(&self, buf: &mut Vec<u8>) {
        if let Some(v) = &self.id {
            wire::encode_nested(1, v, buf);
        }
        if let Some(v) = &self.msg {
            wire::encode_nested(2, v, buf);
        }
        assert(buf@ =~= old(buf)@ + (id_bytes(self@.id) + msg_bytes(self@.msg)));
    }
}

/// The bytes of the identity in a tunnelled message.
pub open spec fn id_bytes(id: Option<IdModel>) -> Seq<u8> {
    match id {
        Some(v) => wire::bytes_field(1, Id::bytes_of(v)),
        None => Seq::empty(),
    }
}

/// The bytes of the message proper in a tunnelled message.
pub open spec fn msg_bytes(msg: Option<WsMsgModel>) -> Seq<u8> {
    match msg {
        Some(v) => wire::bytes_field(2, WsMsg::bytes_of(v)),
        None => Seq::empty(),
    }
}

/// A tunnelled message is read back as it was written, where two more levels may nest.
pub proof fn law_ws_transmitted_round_trip(m: WsTransmittedModel, depth: u32)
    requires
        2 <= depth,
        WsTransmitted::bytes_of(m).len() <= u64::MAX,
    ensures
        wire::read_fields::<WsTransmitted>(WsTransmitted::initial(), WsTransmitted::bytes_of(m), depth) == Some(m),
{
    let none = Seq::<u8>::empty();
    let s2 = msg_bytes(m.msg) + none;
    let m1 = WsTransmittedModel { id: m.id, msg: None };
    assert(WsTransmitted::bytes_of(m) =~= id_bytes(m.id) + s2);
    match m.id {
        Some(v) => {
            law_id_round_trip(v, (depth - 1) as u32);
            wire::lemma_bytes_then_rest::<WsTransmitted>(
                WsTransmitted::initial(),
                1,
                Id::bytes_of(v),
                m1,
                s2,
                depth,
            );
        },
        None => {
            assert(id_bytes(m.id) + s2 =~= s2);
        },
    }
    match m.msg {
        Some(v) => {
            law_ws_msg_round_trip(v, (depth - 1) as u32);
            wire::lemma_bytes_then_rest::<WsTransmitted>(m1, 2, WsMsg::bytes_of(v), m, none, depth);
        },
        None => {
            assert(s2 =~= none);
        },
    }
    assert(wire::read_fields::<WsTransmitted>(m, none, depth) == Some(m));
}

/// The first field of tunnelled data is the data, that of an identity is its port and the second its
/// host.
pub proof fn law_data_and_id_fields(
    m: Seq<u8>,
    id: IdModel,
    bytes: Seq<u8>,
    number: u32,
    text: Seq<char>,
    rest: Seq<u8>,
    depth: u32,
)
    requires
        bytes.len() <= u64::MAX,
        encode_utf8(text).len() <= u64::MAX,
    ensures
        Data::initial().len() == 0,
        Id::initial() == (IdModel { port: 0, host: Seq::empty() }),
        wire::read_fields::<Data>(m, wire::bytes_field(1, bytes) + rest, depth)
            == wire::read_fields::<Data>(bytes, rest, depth),
        wire::read_fields::<Id>(id, wire::uint32_field(1, number) + rest, depth)
            == wire::read_fields::<Id>(IdModel { port: number, ..id }, rest, depth),
        wire::read_fields::<Id>(id, wire::string_field(2, text) + rest, depth)
            == wire::read_fields::<Id>(IdModel { host: text, ..id }, rest, depth),
{
    wire::lemma_bytes_then_rest::<Data>(m, 1, bytes, bytes, rest, depth);
    wire::lemma_uint32_then_rest::<Id>(
        id,
        1,
        number,
        IdModel { port: number, ..id },
        rest,
        depth,
    );
    wire::lemma_string_then_rest::<Id>(id, 2, text, IdModel { host: text, ..id }, rest, depth);
}

/// The fields of a message of a tunnelled connection are, in this order, a new connection, the end
/// of the data, the end of the connection, and data. The one that comes last counts.
pub proof fn law_ws_msg_fields(
    m: WsMsgModel,
    body: Seq<u8>,
    data: Seq<u8>,
    rest: Seq<u8>,
    depth: u32,
)
    requires
        1 <= depth,
        body.len() <= u64::MAX,
    ensures
        WsMsg::initial().ws_msg_type is None,
        wire::read_fields::<WsMsg>(m, wire::bytes_field(1, Seq::empty()) + rest, depth)
            == wire::read_fields::<WsMsg>(
            WsMsgModel { ws_msg_type: Some(WsMsgTypeModel::NewConnection) },
            rest,
            depth,
        ),
        wire::read_fields::<WsMsg>(m, wire::bytes_field(2, Seq::empty()) + rest, depth)
            == wire::read_fields::<WsMsg>(
            WsMsgModel { ws_msg_type: Some(WsMsgTypeModel::Eot) },
            rest,
            depth,
        ),
        wire::read_fields::<WsMsg>(m, wire::bytes_field(3, Seq::empty()) + rest, depth)
            == wire::read_fields::<WsMsg>(
            WsMsgModel { ws_msg_type: Some(WsMsgTypeModel::CloseConnection) },
            rest,
            depth,
        ),
        wire::read_fields::<Data>(
            match m.ws_msg_type {
                Some(WsMsgTypeModel::Data(before)) => before,
                _ => Data::initial(),
            },
            body,
            (depth - 1) as u32,
        ) == Some(data) ==> wire::read_fields::<WsMsg>(
            m,
            wire::bytes_field(4, body) + rest,
            depth,
        ) == wire::read_fields::<WsMsg>(
            WsMsgModel { ws_msg_type: Some(WsMsgTypeModel::Data(data)) },
            rest,
            depth,
        ),
{
    let none = Seq::<u8>::empty();
    assert(wire::read_fields::<Empty>((), none, (depth - 1) as u32) == Some(()));
    wire::lemma_bytes_then_rest::<WsMsg>(
        m,
        1,
        none,
        WsMsgModel { ws_msg_type: Some(WsMsgTypeModel::NewConnection) },
        rest,
        depth,
    );
    wire::lemma_bytes_then_rest::<WsMsg>(
        m,
        2,
        none,
        WsMsgModel { ws_msg_type: Some(WsMsgTypeModel::Eot) },
        rest,
        depth,
    );
    wire::lemma_bytes_then_rest::<WsMsg>(
        m,
        3,
        none,
        WsMsgModel { ws_msg_type: Some(WsMsgTypeModel::CloseConnection) },
        rest,
        depth,
    );
    if wire::read_fields::<Data>(
        match m.ws_msg_type {
            Some(WsMsgTypeModel::Data(before)) => before,
            _ => Data::initial(),
        },
        body,
        (depth - 1) as u32,
    ) == Some(data) {
        wire::lemma_bytes_then_rest::<WsMsg>(
            m,
            4,
            body,
            WsMsgModel { ws_msg_type: Some(WsMsgTypeModel::Data(data)) },
            rest,
            depth,
        );
    }
}

/// The first field of a tunnelled message is the identity of its connection, and the second the
/// message proper. One that comes again adds to what there was.
pub proof fn law_ws_transmitted_fields(
    m: WsTransmittedModel,
    body: Seq<u8>,
    rest: Seq<u8>,
    depth: u32,
    id: IdModel,
    msg: WsMsgModel,
)
    requires
        1 <= depth,
        body.len() <= u64::MAX,
    ensures
        WsTransmitted::initial() == (WsTransmittedModel { id: None, msg: None }),
        wire::read_fields::<Id>(
            match m.id {
                Some(before) => before,
                None => Id::initial(),
            },
            body,
            (depth - 1) as u32,
        ) == Some(id) ==> wire::read_fields::<WsTransmitted>(
            m,
            wire::bytes_field(1, body) + rest,
            depth,
        ) == wire::read_fields::<WsTransmitted>(
            WsTransmittedModel { id: Some(id), ..m },
            rest,
            depth,
        ),
        wire::read_fields::<WsMsg>(
            match m.msg {
                Some(before) => before,
                None => WsMsg::initial(),
            },
            body,
            (depth - 1) as u32,
        ) == Some(msg) ==> wire::read_fields::<WsTransmitted>(
            m,
            wire::bytes_field(2, body) + rest,
            depth,
        ) == wire::read_fields::<WsTransmitted>(
            WsTransmittedModel { msg: Some(msg), ..m },
            rest,
            depth,
        ),
{
    if wire::read_fields::<Id>(
        match m.id {
            Some(before) => before,
            None => Id::initial(),
        },
        body,
        (depth - 1) as u32,
    ) == Some(id) {
        wire::lemma_bytes_then_rest::<WsTransmitted>(
            m,
            1,
            body,
            WsTransmittedModel { id: Some(id), ..m },
            rest,
            depth,
        );
    }
    if wire::read_fields::<WsMsg>(
        match m.msg {
            Some(before) => before,
            None => WsMsg::initial(),
        },
        body,
        (depth - 1) as u32,
    ) == Some(msg) {
        wire::lemma_bytes_then_rest::<WsTransmitted>(
            m,
            2,
            body,
            WsTransmittedModel { msg: Some(msg), ..m },
            rest,
            depth,
        );
    }
}

/// A field that is not known is passed over.
pub proof fn law_unknown_fields(
    data: Seq<u8>,
    id: IdModel,
    msg: WsMsgModel,
    m: WsTransmittedModel,
    tag: u32,
    wire: WireType,
    value: Seq<u8>,
    rest: Seq<u8>,
    depth: u32,
)
    requires
        1 <= tag <= wire::MAX_TAG,
        wire::skipped(tag, wire, value + rest, depth) == Some(rest),
    ensures
        ({
            let field = wire::key(tag as nat, wire) + value;
            &&& wire::read_fields::<Empty>((), field + rest, depth)
                == wire::read_fields::<Empty>((), rest, depth)
            &&& 2 <= tag ==> wire::read_fields::<Data>(data, field + rest, depth)
                == wire::read_fields::<Data>(data, rest, depth)
            &&& 3 <= tag ==> wire::read_fields::<Id>(id, field + rest, depth)
                == wire::read_fields::<Id>(id, rest, depth)
            &&& 5 <= tag ==> wire::read_fields::<WsMsg>(msg, field + rest, depth)
                == wire::read_fields::<WsMsg>(msg, rest, depth)
            &&& 3 <= tag ==> wire::read_fields::<WsTransmitted>(m, field + rest, depth)
                == wire::read_fields::<WsTransmitted>(m, rest, depth)
        }),
{
    wire::lemma_field_then_rest::<Empty>((), tag, wire, value, (), rest, depth);
    if 2 <= tag {
        wire::lemma_field_then_rest::<Data>(data, tag, wire, value, data, rest, depth);
    }
    if 3 <= tag {
        wire::lemma_field_then_rest::<Id>(id, tag, wire, value, id, rest, depth);
    }
    if 5 <= tag {
        wire::lemma_field_then_rest::<WsMsg>(msg, tag, wire, value, msg, rest, depth);
    }
    if 3 <= tag {
        wire::lemma_field_then_rest::<WsTransmitted>(m, tag, wire, value, m, rest, depth);
    }
}

/// Nothing is read where a field is malformed: where its value is none of its kind, a message in it
/// is malformed or nests too deep, or a field that is not known cannot be stepped over.
pub proof fn law_malformed_fields(
    data: Seq<u8>,
    id: IdModel,
    msg: WsMsgModel,
    m: WsTransmittedModel,
    tag: u32,
    wire: WireType,
    rest: Seq<u8>,
    depth: u32,
)
    requires
        1 <= tag <= wire::MAX_TAG,
    ensures
        ({
            let field = wire::key(tag as nat, wire) + rest;
            let unknown = wire::skipped(tag, wire, rest, depth) is None;
            let no_bytes = wire::read_bytes(wire, rest) is None;
            let no_text = wire::read_string(wire, rest) is None;
            let no_number = wire::read_uint32(wire, rest) is None;
            let no_empty = wire::read_nested::<Empty>(
                (),
                wire,
                rest,
                depth,
            ) is None;
            let no_data = wire::read_nested::<Data>(
                match msg.ws_msg_type {
                    Some(WsMsgTypeModel::Data(before)) => before,
                    _ => Data::initial(),
                },
                wire,
                rest,
                depth,
            ) is None;
            let no_id = wire::read_nested::<Id>(
                match m.id {
                    Some(before) => before,
                    None => Id::initial(),
                },
                wire,
                rest,
                depth,
            ) is None;
            let no_msg = wire::read_nested::<WsMsg>(
                match m.msg {
                    Some(before) => before,
                    None => WsMsg::initial(),
                },
                wire,
                rest,
                depth,
            ) is None;
            &&& (1 <= tag && unknown) ==> wire::read_fields::<Empty>((), field, depth) is None
            &&& (tag == 1 && no_bytes) || (2 <= tag && unknown)
                ==> wire::read_fields::<Data>(data, field, depth) is None
            &&& (tag == 1 && no_number) || (tag == 2 && no_text) || (3 <= tag && unknown)
                ==> wire::read_fields::<Id>(id, field, depth) is None
            &&& (1 <= tag <= 3 && no_empty) || (tag == 4 && no_data) || (5 <= tag && unknown)
                ==> wire::read_fields::<WsMsg>(msg, field, depth) is None
            &&& (tag == 1 && no_id) || (tag == 2 && no_msg) || (3 <= tag && unknown)
                ==> wire::read_fields::<WsTransmitted>(m, field, depth) is None
        }),
{
    if Empty::read_field((), tag, wire, rest, depth) is None {
        wire::lemma_malformed_field::<Empty>((), tag, wire, rest, depth);
    }
    if Data::read_field(data, tag, wire, rest, depth) is None {
        wire::lemma_malformed_field::<Data>(data, tag, wire, rest, depth);
    }
    if Id::read_field(id, tag, wire, rest, depth) is None {
        wire::lemma_malformed_field::<Id>(id, tag, wire, rest, depth);
    }
    if WsMsg::read_field(msg, tag, wire, rest, depth) is None {
        wire::lemma_malformed_field::<WsMsg>(msg, tag, wire, rest, depth);
    }
    if WsTransmitted::read_field(m, tag, wire, rest, depth) is None {
        wire::lemma_malformed_field::<WsTransmitted>(m, tag, wire, rest, depth);
    }
}

/// The bytes of a message are its fields, each under the tag of its kind.
pub proof fn law_bytes_are_the_fields(
    data: Seq<u8>,
    id: IdModel,
    msg: WsMsgModel,
    m: WsTransmittedModel,
)
    ensures
        Empty::bytes_of(()).len() == 0,
        Data::bytes_of(data) == wire::implicit_bytes(1, data),
        Id::bytes_of(id) == wire::implicit_uint32(1, id.port) + wire::implicit_string(2, id.host),
        match msg.ws_msg_type {
            None => WsMsg::bytes_of(msg).len() == 0,
            Some(WsMsgTypeModel::NewConnection) => WsMsg::bytes_of(msg) == wire::bytes_field(
                1,
                Seq::empty(),
            ),
            Some(WsMsgTypeModel::Eot) => WsMsg::bytes_of(msg) == wire::bytes_field(2, Seq::empty()),
            Some(WsMsgTypeModel::CloseConnection) => WsMsg::bytes_of(msg) == wire::bytes_field(
                3,
                Seq::empty(),
            ),
            Some(WsMsgTypeModel::Data(data)) => WsMsg::bytes_of(msg) == wire::bytes_field(
                4,
                Data::bytes_of(data),
            ),
        },
        WsTransmitted::bytes_of(m) == match m.id {
            Some(id) => wire::bytes_field(1, Id::bytes_of(id)),
            None => Seq::empty(),
        } + match m.msg {
            Some(msg) => wire::bytes_field(2, WsMsg::bytes_of(msg)),
            None => Seq::empty(),
        },
{
}

/// A message views as its members, and a member of a kind as that kind.
pub proof fn law_views(data: Data, id: Id, msg: WsMsg, m: WsTransmitted)
    ensures
        data@ == data.data@,
        id@.port == id.port && id@.host == id.host@,
        match msg.ws_msg_type {
            Some(WsMsgType::NewConnection(_)) => msg@.ws_msg_type == Some(
                WsMsgTypeModel::NewConnection,
            ),
            Some(WsMsgType::Eot(_)) => msg@.ws_msg_type == Some(WsMsgTypeModel::Eot),
            Some(WsMsgType::CloseConnection(_)) => msg@.ws_msg_type == Some(
                WsMsgTypeModel::CloseConnection,
            ),
            Some(WsMsgType::Data(data)) => msg@.ws_msg_type == Some(
                WsMsgTypeModel::Data(data.data@),
            ),
            None => msg@.ws_msg_type is None,
        },
        match m.id {
            Some(id) => m@.id == Some(id@),
            None => m@.id is None,
        },
        match m.msg {
            Some(msg) => m@.msg == Some(msg@),
            None => m@.msg is None,
        },
{
}

} // verus!
