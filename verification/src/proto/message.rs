//! The protocols a message can belong to.

use vstd::prelude::*;

use crate::proto::{Http, HttpModel, WebSocket, WebSocketModel};

verus! {

/// What a message of one of the protocols on the wire holds.
pub enum ProtocolModel {
    Http(HttpModel),
    Ws(WebSocketModel),
}

/// A message of one of the protocols on the wire.
#[derive(Debug)]
pub enum Protocol {
    Http(Http),
    Ws(WebSocket),
}

impl View for Protocol {
    type V = ProtocolModel;

    open spec fn view(&self) -> ProtocolModel {
        match self {
            Protocol::Http(m) => ProtocolModel::Http(m@),
            Protocol::Ws(m) => ProtocolModel::Ws(m@),
        }
    }
}

impl ProtocolModel {
    /// Header names occur once.
    pub open spec fn wf(self) -> bool {
        match self {
            ProtocolModel::Http(m) => m.wf(),
            ProtocolModel::Ws(_) => true,
        }
    }
}

} // verus!
