//! The messages that pass over a WebSocket connection.

use vstd::prelude::*;

verus! {

/// What a WebSocket message holds. Of a close frame: the code and the reason.
pub enum TungMessageModel {
    Text(Seq<char>),
    Binary(Seq<u8>),
    Ping(Seq<u8>),
    Pong(Seq<u8>),
    Close(Option<(u16, Seq<char>)>),
    Frame,
}

/// Why a connection is closed.
#[derive(Debug)]
pub struct CloseFrame {
    pub code: u16,
    pub reason: String,
}

/// A WebSocket message. A raw frame is carried by name only: nothing reads what it holds.
#[derive(Debug)]
pub enum TungMessage {
    Text(String),
    Binary(Vec<u8>),
    Ping(Vec<u8>),
    Pong(Vec<u8>),
    Close(Option<CloseFrame>),
    Frame,
}

impl View for TungMessage {
    type V = TungMessageModel;

    open spec fn view(&self) -> TungMessageModel {
        match self {
            TungMessage::Text(data) => TungMessageModel::Text(data@),
            TungMessage::Binary(data) => TungMessageModel::Binary(data@),
            TungMessage::Ping(data) => TungMessageModel::Ping(data@),
            TungMessage::Pong(data) => TungMessageModel::Pong(data@),
            TungMessage::Close(Some(frame)) => TungMessageModel::Close(
                Some((frame.code, frame.reason@)),
            ),
            TungMessage::Close(None) => TungMessageModel::Close(None),
            TungMessage::Frame => TungMessageModel::Frame,
        }
    }
}

impl TungMessage {
    /// Whether the message is a close frame.
    pub fn is_close(&self) -> (r: bool)
        ensures
            r == (self@ is Close),
    {
        matches!(self, TungMessage::Close(_))
    }
}

/// A message views as its kind, with its data.
pub proof fn law_message_views_as_its_kind(
    text: String,
    data: Vec<u8>,
    code: u16,
    reason: String,
)
    ensures
        TungMessage::Text(text)@ == TungMessageModel::Text(text@),
        TungMessage::Binary(data)@ == TungMessageModel::Binary(data@),
        TungMessage::Ping(data)@ == TungMessageModel::Ping(data@),
        TungMessage::Pong(data)@ == TungMessageModel::Pong(data@),
        TungMessage::Close(Some(CloseFrame { code, reason }))@ == TungMessageModel::Close(
            Some((code, reason@)),
        ),
        TungMessage::Close(None)@ == TungMessageModel::Close(None),
        TungMessage::Frame@ == TungMessageModel::Frame,
{
}

} // verus!
