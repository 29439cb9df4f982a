//! WebSocket messages on the wire.

use prost::DecodeError;
use vstd::prelude::*;
use vstd::utf8::*;

use crate::wire;
use crate::wire::{WireMessage, WireType};

verus! {

/// What a close frame on the wire holds.
pub struct CloseModel {
    pub code: u32,
    pub reason: Option<Seq<char>>,
}

/// A close frame on the wire.
#[derive(Debug)]
pub struct Close {
    pub code: u32,
    pub reason: Option<String>,
}

impl View for Close {
    type V = CloseModel;

    open spec fn view(&self) -> CloseModel {
        CloseModel { code: self.code, reason: wire::string_option(self.reason) }
    }
}

impl WireMessage for Close {
    open spec fn initial() -> CloseModel {
        CloseModel { code: 0, reason: None }
    }

    open spec fn read_field(
        m: CloseModel,
        tag: u32,
        wire: WireType,
        s: Seq<u8>,
        depth: u32,
    ) -> Option<(CloseModel, Seq<u8>)> {
        if tag == 1 {
            match wire::read_uint32(wire, s) {
                Some((v, rest)) => Some((CloseModel { code: v, ..m }, rest)),
                None => None,
            }
        } else if tag == 2 {
            match wire::read_string(wire, s) {
                Some((v, rest)) => Some((CloseModel { reason: Some(v), ..m }, rest)),
                None => None,
            }
        } else {
            match wire::skipped(tag, wire, s, depth) {
                Some(rest) => Some((m, rest)),
                None => None,
            }
        }
    }

    open spec fn bytes_of(m: CloseModel) -> Seq<u8> {
        wire::implicit_uint32(1, m.code) + wire::optional_string(2, m.reason)
    }

    fn empty() -> (r: Self) {
        Close { code: 0, reason: None }
    }

    fn merge_field<'a>(self, tag: u32, wire: WireType, buf: &'a [u8], depth: u32) -> (r: Result<
        (Self, &'a [u8]),
        DecodeError,
    >) {
        proof {
            wire::lemma_read_value_shorter(wire, buf@);
        }
        if tag == 1 {
            let (code, rest) = wire::decode_uint32(wire, buf)?;
            Ok((Close { code, reason: self.reason }, rest))
        } else if tag == 2 {
            let (reason, rest) = wire::decode_string(wire, buf)?;
            Ok((Close { code: self.code, reason: Some(reason) }, rest))
        } else {
            let rest = wire::skip_field(tag, wire, buf, depth)?;
            Ok((self, rest))
        }
    }

    fn encode_raw(&self, buf: &mut Vec<u8>) {
        wire::put_uint32(1, self.code, buf);
        wire::put_optional_string(2, &self.reason, buf);
    }
}

/// A close frame is read back as it was written, however deep it stands.
pub proof fn law_close_round_trip(m: CloseModel, depth: u32)
    requires
        Close::bytes_of(m).len() <= u64::MAX,
    ensures
        wire::read_fields::<Close>(Close::initial(), Close::bytes_of(m), depth) == Some(m),
{
    let none = Seq::<u8>::empty();
    let s2 = wire::optional_string(2, m.reason) + none;
    let m1 = CloseModel { code: m.code, reason: None };
    assert(Close::bytes_of(m) =~= wire::implicit_uint32(1, m.code) + s2);
    wire::lemma_implicit_uint32::<Close>(Close::initial(), 1, m.code, m1, s2, depth);
    wire::lemma_optional_string::<Close>(m1, 2, m.reason, m, none, depth);
    assert(wire::read_fields::<Close>(m, none, depth) == Some(m));
}

/// What the payload of a WebSocket message on the wire holds.
pub enum MessageModel {
    Text(Seq<char>),
    Binary(Seq<u8>),
    Ping(Seq<u8>),
    Pong(Seq<u8>),
    Close(CloseModel),
}

/// The payload of a WebSocket message on the wire.
#[derive(Debug)]
pub enum Message {
    Text(String),
    Binary(Vec<u8>),
    Ping(Vec<u8>),
    Pong(Vec<u8>),
    Close(Close),
}

impl View for Message {
    type V = MessageModel;

    open spec fn view(&self) -> MessageModel {
        match self {
            Message::Text(v) => MessageModel::Text(v@),
            Message::Binary(v) => MessageModel::Binary(v@),
            Message::Ping(v) => MessageModel::Ping(v@),
            Message::Pong(v) => MessageModel::Pong(v@),
            Message::Close(v) => MessageModel::Close(v@),
        }
    }
}

/// The first field of a close frame is its code and the second its reason.
pub proof fn law_close_fields(
    m: CloseModel,
    number: u32,
    text: Seq<char>,
    rest: Seq<u8>,
    depth: u32,
)
    requires
        encode_utf8(text).len() <= u64::MAX,
    ensures
        Close::initial() == (CloseModel { code: 0, reason: None }),
        wire::read_fields::<Close>(m, wire::uint32_field(1, number) + rest, depth)
            == wire::read_fields::<Close>(CloseModel { code: number, ..m }, rest, depth),
        wire::read_fields::<Close>(m, wire::string_field(2, text) + rest, depth)
            == wire::read_fields::<Close>(CloseModel { reason: Some(text), ..m }, rest, depth),
{
    wire::lemma_uint32_then_rest::<Close>(
        m,
        1,
        number,
        CloseModel { code: number, ..m },
        rest,
        depth,
    );
    wire::lemma_string_then_rest::<Close>(
        m,
        2,
        text,
        CloseModel { reason: Some(text), ..m },
        rest,
        depth,
    );
}

/// The bytes of a close frame are its code and its reason, in this order.
pub proof fn law_close_bytes(m: CloseModel)
    ensures
        m.code == 0 && m.reason is None ==> Close::bytes_of(m).len() == 0,
        Close::bytes_of(m) == wire::implicit_uint32(1, m.code) + wire::optional_string(2, m.reason),
{
}

/// A payload views as its kind, with its data.
pub proof fn law_payload_views_as_its_kind(text: String, data: Vec<u8>, close: Close)
    ensures
        Message::Text(text)@ == MessageModel::Text(text@),
        Message::Binary(data)@ == MessageModel::Binary(data@),
        Message::Ping(data)@ == MessageModel::Ping(data@),
        Message::Pong(data)@ == MessageModel::Pong(data@),
        Message::Close(close)@ == MessageModel::Close(close@),
        close@.code == close.code,
        close@.reason == wire::string_option(close.reason),
{
}

} // verus!
