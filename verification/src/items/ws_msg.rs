//! The kinds of messages that tunnelled connections exchange.

use vstd::prelude::*;

use crate::items::{Data, Empty};

verus! {

/// What a kind of message on the wire holds.
pub enum WsMsgTypeModel {
    NewConnection,
    Eot,
    CloseConnection,
    Data(Seq<u8>),
}

/// A kind of message on the wire.
#[derive(Debug)]
pub enum WsMsgType {
    NewConnection(Empty),
    Eot(Empty),
    CloseConnection(Empty),
    Data(Data),
}

impl View for WsMsgType {
    type V = WsMsgTypeModel;

    open spec fn view(&self) -> WsMsgTypeModel {
        match self {
            WsMsgType::NewConnection(_) => WsMsgTypeModel::NewConnection,
            WsMsgType::Eot(_) => WsMsgTypeModel::Eot,
            WsMsgType::CloseConnection(_) => WsMsgTypeModel::CloseConnection,
            WsMsgType::Data(d) => WsMsgTypeModel::Data(d@),
        }
    }
}

} // verus!
