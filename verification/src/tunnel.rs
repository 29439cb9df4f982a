//! TCP connections that run through one WebSocket: what their two ends tell each other, what one
//! connection does with what it reads and is given to write, and which connections there are.

use tungstenite::Error as TungError;
use vstd::prelude::*;

use crate::conn_state::ConnState;
use crate::items;
use crate::text;
use crate::tung_message::{TungMessage, TungMessageModel};
use crate::vec_map;
use crate::vec_map::{Key, VecMap};
use crate::wire;

verus! {

/// What the identity of a connection holds.
pub struct IdModel {
    pub port: u16,
    pub host: Seq<char>,
}

/// The identity of a connection.
#[derive(Debug)]
pub struct Id {
    port: u16,
    host: String,
}

impl View for Id {
    type V = IdModel;

    closed spec fn view(&self) -> IdModel {
        IdModel { port: self.port, host: self.host@ }
    }
}

impl Clone for Id {
    fn clone(&self) -> (r: Self)
        ensures
            r@ == self@,
    {
        Id { port: self.port, host: self.host.clone() }
    }
}

impl Key for Id {
    fn same(&self, other: &Self) -> (r: bool) {
        self.port == other.port && self.host == other.host
    }
}

impl IdModel {
    /// How an identity is printed.
    pub open spec fn text(self) -> Seq<char> {
        "("@ + text::decimal(self.port as nat) + ","@ + self.host + ")"@
    }
}

impl Id {
    pub fn new(port: u16, host: String) -> (r: Self)
        ensures
            r@ == (IdModel { port, host: host@ }),
    {
        Id { port, host }
    }

    /// The identity in print.
    pub fn to_text(&self) -> (r: String)
        ensures
            r@ == self@.text(),
    {
        let mut r = "(".to_owned();
        r.append(text::to_decimal(self.port).as_str());
        r.append(",");
        r.append(self.host.as_str());
        r.append(")");
        r
    }
}

impl TryFrom<items::Id> for Id {
    type Error = ();

    /// An identity on the wire is one where its port is in range.
    fn try_from(value: items::Id) -> (r: Result<Self, ()>)
        ensures
            match r {
                Ok(id) => value@.port <= u16::MAX && id@ == (IdModel {
                    port: value@.port as u16,
                    host: value@.host,
                }),
                Err(_) => value@.port > u16::MAX,
            },
    {
        match u16::try_from(value.port) {
            Ok(port) => Ok(Id::new(port, value.host)),
            Err(_) => Err(()),
        }
    }
}

impl vstd::std_specs::convert::TryFromSpecImpl<items::Id> for Id {
    open spec fn obeys_try_from_spec() -> bool {
        false
    }

    open spec fn try_from_spec(v: items::Id) -> Result<Self, ()> {
        arbitrary()
    }
}

/// What one end of a connection is told.
pub enum ConnMsgModel {
    Data(Seq<u8>),
    Eot,
    Close,
}

/// What one end of a connection is told: data, the end of the data, or the end of the connection.
#[derive(Debug)]
pub enum ConnMsg {
    Data(Vec<u8>),
    Eot,
    Close,
}

impl View for ConnMsg {
    type V = ConnMsgModel;

    open spec fn view(&self) -> ConnMsgModel {
        match self {
            ConnMsg::Data(data) => ConnMsgModel::Data(data@),
            ConnMsg::Eot => ConnMsgModel::Eot,
            ConnMsg::Close => ConnMsgModel::Close,
        }
    }
}

/// What comes from a connection.
pub struct TransmittedModel {
    pub id: IdModel,
    pub msg: ConnMsgModel,
}

/// What comes from a connection, and from which.
#[derive(Debug)]
pub struct Transmitted {
    id: Id,
    msg: ConnMsg,
}

impl View for Transmitted {
    type V = TransmittedModel;

    closed spec fn view(&self) -> TransmittedModel {
        TransmittedModel { id: self.id@, msg: self.msg@ }
    }
}

impl Transmitted {
    pub fn data(id: Id, data: Vec<u8>) -> (r: Self)
        ensures
            r@ == (TransmittedModel { id: id@, msg: ConnMsgModel::Data(data@) }),
    {
        Self { id, msg: ConnMsg::Data(data) }
    }

    pub fn eot(id: Id) -> (r: Self)
        ensures
            r@ == (TransmittedModel { id: id@, msg: ConnMsgModel::Eot }),
    {
        Self { id, msg: ConnMsg::Eot }
    }

    pub fn close(id: Id) -> (r: Self)
        ensures
            r@ == (TransmittedModel { id: id@, msg: ConnMsgModel::Close }),
    {
        Self { id, msg: ConnMsg::Close }
    }
}

/// What the two ends tell each other of a connection.
pub enum WsMsgModel {
    NewConnection,
    Eot,
    CloseConnection,
    Data(Seq<u8>),
}

/// What the two ends tell each other of a connection.
#[derive(Debug)]
pub enum WsMsg {
    NewConnection,
    Eot,
    CloseConnection,
    Data(Vec<u8>),
}

impl View for WsMsg {
    type V = WsMsgModel;

    open spec fn view(&self) -> WsMsgModel {
        match self {
            WsMsg::NewConnection => WsMsgModel::NewConnection,
            WsMsg::Eot => WsMsgModel::Eot,
            WsMsg::CloseConnection => WsMsgModel::CloseConnection,
            WsMsg::Data(data) => WsMsgModel::Data(data@),
        }
    }
}

/// A kind of message on the wire.
pub open spec fn wire_msg(msg: WsMsgModel) -> items::ws_msg::WsMsgTypeModel {
    match msg {
        WsMsgModel::NewConnection => items::ws_msg::WsMsgTypeModel::NewConnection,
        WsMsgModel::Eot => items::ws_msg::WsMsgTypeModel::Eot,
        WsMsgModel::CloseConnection => items::ws_msg::WsMsgTypeModel::CloseConnection,
        WsMsgModel::Data(data) => items::ws_msg::WsMsgTypeModel::Data(data),
    }
}

/// What a kind of message on the wire stands for.
pub open spec fn msg_of(msg: items::ws_msg::WsMsgTypeModel) -> WsMsgModel {
    match msg {
        items::ws_msg::WsMsgTypeModel::NewConnection => WsMsgModel::NewConnection,
        items::ws_msg::WsMsgTypeModel::Eot => WsMsgModel::Eot,
        items::ws_msg::WsMsgTypeModel::CloseConnection => WsMsgModel::CloseConnection,
        items::ws_msg::WsMsgTypeModel::Data(data) => WsMsgModel::Data(data),
    }
}

impl From<items::ws_msg::WsMsgType> for WsMsg {
    fn from(value: items::ws_msg::WsMsgType) -> (r: Self)
        ensures
            r@ == msg_of(value@),
    {
        match value {
            items::ws_msg::WsMsgType::NewConnection(_) => WsMsg::NewConnection,
            items::ws_msg::WsMsgType::Eot(_) => WsMsg::Eot,
            items::ws_msg::WsMsgType::CloseConnection(_) => WsMsg::CloseConnection,
            items::ws_msg::WsMsgType::Data(data) => WsMsg::Data(data.data),
        }
    }
}

impl vstd::std_specs::convert::FromSpecImpl<items::ws_msg::WsMsgType> for WsMsg {
    open spec fn obeys_from_spec() -> bool {
        false
    }

    open spec fn from_spec(v: items::ws_msg::WsMsgType) -> Self {
        arbitrary()
    }
}

impl From<WsMsg> for items::ws_msg::WsMsgType {
    fn from(value: WsMsg) -> (r: Self)
        ensures
            r@ == wire_msg(value@),
    {
        match value {
            WsMsg::NewConnection => items::ws_msg::WsMsgType::NewConnection(items::Empty {  }),
            WsMsg::Eot => items::ws_msg::WsMsgType::Eot(items::Empty {  }),
            WsMsg::CloseConnection => items::ws_msg::WsMsgType::CloseConnection(items::Empty {  }),
            WsMsg::Data(data) => items::ws_msg::WsMsgType::Data(items::Data { data }),
        }
    }
}

impl vstd::std_specs::convert::FromSpecImpl<WsMsg> for items::ws_msg::WsMsgType {
    open spec fn obeys_from_spec() -> bool {
        false
    }

    open spec fn from_spec(v: WsMsg) -> Self {
        arbitrary()
    }
}

/// What is told of a connection, and of which.
pub struct WsTransmittedModel {
    pub id: IdModel,
    pub msg: WsMsgModel,
}

/// What is told of a connection, and of which.
#[derive(Debug)]
pub struct WsTransmitted {
    id: Id,
    msg: WsMsg,
}

impl View for WsTransmitted {
    type V = WsTransmittedModel;

    closed spec fn view(&self) -> WsTransmittedModel {
        WsTransmittedModel { id: self.id@, msg: self.msg@ }
    }
}

/// The bytes of what is told of a connection.
pub open spec fn transmitted_bytes(m: WsTransmittedModel) -> Seq<u8> {
    <items::WsTransmitted as wire::WireMessage>::bytes_of(
        items::WsTransmittedModel {
            id: Some(items::IdModel { port: m.id.port as u32, host: m.id.host }),
            msg: Some(items::WsMsgModel { ws_msg_type: Some(wire_msg(m.msg)) }),
        },
    )
}

/// What bytes hold that were received: no message, a message that lacks a part, or a message.
pub enum Received {
    Malformed,
    Incomplete,
    Message(WsTransmittedModel),
}

/// What a message on the wire holds. An identity whose port is out of range is told before a part
/// that is missing after it.
pub open spec fn received_item(m: items::WsTransmittedModel) -> Received {
    match m.id {
        None => Received::Incomplete,
        Some(id) => if id.port > u16::MAX {
            Received::Malformed
        } else {
            match m.msg {
                Some(items::WsMsgModel { ws_msg_type: Some(msg) }) => Received::Message(
                    WsTransmittedModel {
                        id: IdModel { port: id.port as u16, host: id.host },
                        msg: msg_of(msg),
                    },
                ),
                _ => Received::Incomplete,
            }
        },
    }
}

/// What the bytes hold.
pub open spec fn received(bytes: Seq<u8>) -> Received {
    match wire::read_message::<items::WsTransmitted>(bytes) {
        Some(m) => received_item(m),
        None => Received::Malformed,
    }
}

/// The result tells what was received.
pub open spec fn tells(r: Result<WsTransmitted, ()>, received: Received) -> bool {
    match received {
        Received::Malformed => r is Err,
        Received::Incomplete => false,
        Received::Message(m) => r matches Ok(msg) && msg@ == m,
    }
}

impl WsTransmitted {
    pub fn new(id: Id, msg: WsMsg) -> (r: Self)
        ensures
            r@ == (WsTransmittedModel { id: id@, msg: msg@ }),
    {
        Self { id, msg }
    }

    pub fn into_inner(self) -> (r: (Id, WsMsg))
        ensures
            self@ == (WsTransmittedModel { id: r.0@, msg: r.1@ }),
    {
        (self.id, self.msg)
    }

    /// Writes the message as bytes, which always succeeds. The bytes are read as the message again.
    pub fn encode(self) -> (r: Result<Vec<u8>, ()>)
        ensures
            r matches Ok(bytes) && bytes@ == transmitted_bytes(self@) && received(bytes@)
                == Received::Message(self@),
    {
        let id = items::Id { port: self.id.port as u32, host: self.id.host };
        let msg = items::WsMsg { ws_msg_type: Some(items::ws_msg::WsMsgType::from(self.msg)) };
        let transmitted_msg = items::WsTransmitted { id: Some(id), msg: Some(msg) };
        let bytes = wire::encode_to_vec(&transmitted_msg);
        proof {
            assert(bytes.len() <= u64::MAX);
            law_transmitted_survives_wire(self@);
        }
        Ok(bytes)
    }

    /// What a message on the wire stands for. It must have all its parts.
    pub fn from_wire(value: items::WsTransmitted) -> (r: Result<Self, ()>)
        requires
            !(received_item(value@) is Incomplete),
        ensures
            tells(r, received_item(value@)),
    {
        let id = match Id::try_from(value.id.unwrap()) {
            Ok(id) => id,
            Err(_) => {
                return Err(());
            },
        };
        let msg = WsMsg::from(value.msg.unwrap().ws_msg_type.unwrap());
        Ok(WsTransmitted { id, msg })
    }

    /// Reads a message from bytes. The bytes must not be those of a message that lacks a part.
    pub fn decode(bytes: &[u8]) -> (r: Result<Self, ()>)
        requires
            !(received(bytes@) is Incomplete),
        ensures
            tells(r, received(bytes@)),
    {
        match wire::decode::<items::WsTransmitted>(bytes) {
            Ok(value) => WsTransmitted::from_wire(value),
            Err(_) => Err(()),
        }
    }

    /// Reads a message from bytes. `None` for a message that lacks a part.
    pub fn decode_checked(bytes: &[u8]) -> (r: Option<Result<Self, ()>>)
        ensures
            match r {
                Some(r) => tells(r, received(bytes@)),
                None => received(bytes@) is Incomplete,
            },
    {
        if let Ok(value) = wire::decode::<items::WsTransmitted>(bytes) {
            match &value.id {
                None => {
                    return None;
                },
                Some(id) => {
                    if id.port <= 65535 {
                        match &value.msg {
                            Some(msg) => {
                                if msg.ws_msg_type.is_none() {
                                    return None;
                                }
                            },
                            None => {
                                return None;
                            },
                        }
                    }
                },
            }
        }
        Some(WsTransmitted::decode(bytes))
    }
}

/// What is told of a connection is received as it was written.
pub proof fn law_transmitted_survives_wire(m: WsTransmittedModel)
    requires
        transmitted_bytes(m).len() <= u64::MAX,
    ensures
        received(transmitted_bytes(m)) == Received::Message(m),
{
    items::law_ws_transmitted_round_trip(
        items::WsTransmittedModel {
            id: Some(items::IdModel { port: m.id.port as u32, host: m.id.host }),
            msg: Some(items::WsMsgModel { ws_msg_type: Some(wire_msg(m.msg)) }),
        },
        wire::MAX_DEPTH,
    );
}

/// What a connection can wait for.
#[derive(Clone, Copy, Debug, PartialEq, Eq, Structural)]
pub enum Wait {
    /// For its stream or for its channel, whichever comes first.
    Both,
    /// For its channel.
    Channel,
}

/// What came: how many bytes were read, or what is to be written. There is nothing to write once
/// the channel is dropped.
#[derive(Debug)]
pub enum Either<E> {
    Read(Result<usize, E>),
    Write(Option<ConnMsg>),
}

/// What is to be done next for a connection.
#[derive(Debug)]
pub enum Step {
    /// Hand on what was read.
    Forward(Transmitted),
    /// Write the data to the stream.
    Write(Vec<u8>),
    /// Shut the stream down for writing.
    Shutdown,
    /// Shut the stream down for writing, and close the connection.
    Close,
    /// Go on.
    Continue,
    /// End.
    Done,
}

/// What is written for a message, in a given state.
pub enum WriteDemand {
    Write(Seq<u8>),
    Shutdown,
    Close,
    Nothing,
}

/// What is written for a message, in a given state. Empty data and the end of the data shut the
/// stream down, and so does a dropped channel, which closes the connection. Data that came too late
/// is dropped.
pub open spec fn write_demand(state: ConnState, data: Option<ConnMsgModel>) -> WriteDemand {
    match data {
        Some(ConnMsgModel::Data(data)) => if data.len() == 0 {
            WriteDemand::Shutdown
        } else if state.writes() {
            WriteDemand::Write(data)
        } else {
            WriteDemand::Nothing
        },
        Some(ConnMsgModel::Eot) => WriteDemand::Shutdown,
        Some(ConnMsgModel::Close) => WriteDemand::Close,
        None => WriteDemand::Close,
    }
}

/// The state of a connection that was given a message to write, before the stream is touched.
pub open spec fn state_after_write(state: ConnState, data: Option<ConnMsgModel>) -> ConnState {
    if write_demand(state, data) is Shutdown {
        state.write_shut()
    } else {
        state
    }
}

/// The step carries out what is demanded.
pub open spec fn writes(step: Step, demand: WriteDemand) -> bool {
    match demand {
        WriteDemand::Write(data) => step matches Step::Write(d) && d@ == data,
        WriteDemand::Shutdown => step is Shutdown,
        WriteDemand::Close => step is Close,
        WriteDemand::Nothing => step is Continue,
    }
}

/// The step that a connection takes for a message to write, and the state that it is left in.
pub open spec fn takes_write(
    before: ConnState,
    data: Option<ConnMsgModel>,
    step: Step,
    after: ConnState,
) -> bool {
    &&& writes(step, write_demand(before, data))
    &&& after == state_after_write(before, data)
}

/// The state of a connection that has read some bytes, of which none are the end of the data.
pub open spec fn state_after_read(state: ConnState, n: usize) -> ConnState {
    if n == 0 {
        state.read_shut()
    } else {
        state
    }
}

/// What is handed on of some bytes that were read into a buffer.
pub open spec fn read_msg(n: usize, buf: Seq<u8>) -> ConnMsgModel {
    if n == 0 {
        ConnMsgModel::Eot
    } else {
        ConnMsgModel::Data(buf.take(n as int))
    }
}

/// What an optional message views.
pub open spec fn conn_option(data: Option<ConnMsg>) -> Option<ConnMsgModel> {
    match data {
        Some(msg) => Some(msg@),
        None => None,
    }
}

/// What a connection holds.
pub struct ConnectionModel {
    pub id: IdModel,
    pub state: ConnState,
}

/// A TCP connection.
#[derive(Debug)]
pub struct Connection {
    id: Id,
    state: ConnState,
}

impl View for Connection {
    type V = ConnectionModel;

    closed spec fn view(&self) -> ConnectionModel {
        ConnectionModel { id: self.id@, state: self.state }
    }
}

impl Connection {
    /// A connection that is open in both directions.
    pub fn new(id: Id) -> (r: Self)
        ensures
            r@ == (ConnectionModel { id: id@, state: ConnState::ReadWrite }),
    {
        Self { id, state: ConnState::default() }
    }

    /// The state of the connection.
    pub fn state(&self) -> (r: ConnState)
        ensures
            r == self@.state,
    {
        self.state
    }

    /// What to wait for: always for the channel, for the stream as well while the connection is open
    /// for reading, and for nothing once it is closed.
    pub fn select(&self) -> (r: Option<Wait>)
        ensures
            match r {
                Some(Wait::Both) => self@.state.reads(),
                Some(Wait::Channel) => self@.state is Write,
                None => self@.state is Closed,
            },
    {
        match self.state {
            ConnState::ReadWrite | ConnState::Read => Some(Wait::Both),
            ConnState::Write => Some(Wait::Channel),
            ConnState::Closed => None,
        }
    }

    /// Takes how many bytes were read into the buffer, and gives what is handed on. No bytes are the
    /// end of the data, and end the reading; an error changes nothing.
    pub fn handle_tcp_read<E>(&mut self, bytes: Result<usize, E>, buf: &[u8]) -> (r: Result<
        Transmitted,
        E,
    >)
        requires
            bytes matches Ok(n) ==> n <= buf@.len(),
        ensures
            match bytes {
                Ok(n) => {
                    &&& r matches Ok(msg)
                    &&& msg@ == (TransmittedModel { id: old(self)@.id, msg: read_msg(n, buf@) })
                    &&& final(self)@ == (ConnectionModel {
                        id: old(self)@.id,
                        state: state_after_read(old(self)@.state, n),
                    })
                },
                Err(err) => r matches Err(e) && e == err && final(self)@ == old(self)@,
            },
    {
        match bytes {
            Ok(n) => {
                let id = self.id.clone();
                if n == 0 {
                    self.state.shutdown_read();
                    Ok(Transmitted::eot(id))
                } else {
                    let read = vstd::slice::slice_subrange(buf, 0, n);
                    assert(read@ =~= buf@.take(n as int));
                    Ok(Transmitted::data(id, vstd::slice::slice_to_vec(read)))
                }
            },
            Err(err) => Err(err),
        }
    }

    /// Takes a message to write, and gives what is to be done with the stream.
    pub fn handle_tcp_write(&mut self, data: Option<ConnMsg>) -> (r: Step)
        ensures
            writes(r, write_demand(old(self)@.state, conn_option(data))),
            final(self)@ == (ConnectionModel {
                id: old(self)@.id,
                state: state_after_write(old(self)@.state, conn_option(data)),
            }),
            takes_write(old(self)@.state, conn_option(data), r, final(self)@.state),
            match data {
                Some(ConnMsg::Data(bytes)) => if bytes@.len() == 0 {
                    r is Shutdown && !final(self)@.state.writes()
                } else if old(self)@.state.writes() {
                    (r matches Step::Write(written) && written@ == bytes@) && final(self)@ == old(
                        self)@
                } else {
                    r is Continue && final(self)@ == old(self)@
                },
                Some(ConnMsg::Eot) => r is Shutdown && !final(self)@.state.writes(),
                Some(ConnMsg::Close) => r is Close && final(self)@ == old(self)@,
                None => r is Close && final(self)@ == old(self)@,
            },
    {
        let data = match data {
            Some(data) => data,
            None => ConnMsg::Close,
        };
        match data {
            ConnMsg::Data(data) => {
                if data.len() == 0 {
                    self.state.shutdown_write();
                    Step::Shutdown
                } else if !self.state.can_write() {
                    Step::Continue
                } else {
                    Step::Write(data)
                }
            },
            ConnMsg::Eot => {
                self.state.shutdown_write();
                Step::Shutdown
            },
            ConnMsg::Close => Step::Close,
        }
    }

    /// Closes the connection once its stream was shut down. Where that failed nothing changes.
    pub fn closed<E>(&mut self, shutdown: Result<(), E>) -> (r: Result<(), E>)
        ensures
            match shutdown {
                Ok(_) => r is Ok && final(self)@ == (ConnectionModel {
                    id: old(self)@.id,
                    state: ConnState::Closed,
                }),
                Err(err) => r matches Err(e) && e == err && final(self)@ == old(self)@,
            },
    {
        match shutdown {
            Ok(()) => {
                self.state = ConnState::Closed;
                Ok(())
            },
            Err(err) => Err(err),
        }
    }

    /// One turn of the connection, on what came while it waited, with the buffer that was read into.
    /// Once there is nothing to wait for it is done.
    pub fn task_step<E>(&mut self, r_w: Option<Either<E>>, buf: &[u8]) -> (r: Result<Step, E>)
        requires
            r_w matches Some(Either::Read(Ok(n))) ==> n <= buf@.len(),
        ensures
            match r_w {
                Some(Either::Read(Ok(n))) => {
                    &&& r matches Ok(Step::Forward(msg))
                    &&& msg@ == (TransmittedModel { id: old(self)@.id, msg: read_msg(n, buf@) })
                    &&& final(self)@ == (ConnectionModel {
                        id: old(self)@.id,
                        state: state_after_read(old(self)@.state, n),
                    })
                },
                Some(Either::Read(Err(err))) => r matches Err(e) && e == err && final(self)@
                    == old(self)@,
                Some(Either::Write(data)) => {
                    &&& r matches Ok(step)
                    &&& writes(step, write_demand(old(self)@.state, conn_option(data)))
                    &&& takes_write(
                        old(self)@.state,
                        conn_option(data),
                        step,
                        final(self)@.state,
                    )
                    &&& final(self)@ == (ConnectionModel {
                        id: old(self)@.id,
                        state: state_after_write(old(self)@.state, conn_option(data)),
                    })
                },
                None => r matches Ok(Step::Done) && final(self)@ == old(self)@,
            },
    {
        match r_w {
            Some(Either::Read(data)) => match self.handle_tcp_read(data, buf) {
                Ok(msg) => Ok(Step::Forward(msg)),
                Err(err) => Err(err),
            },
            Some(Either::Write(data)) => Ok(self.handle_tcp_write(data)),
            None => Ok(Step::Done),
        }
    }

    /// What is handed on when the connection ends, with an error or without.
    pub fn finish(self) -> (r: Transmitted)
        ensures
            r@ == (TransmittedModel { id: self@.id, msg: ConnMsgModel::Close }),
    {
        Transmitted::close(self.id)
    }
}

/// What is read and written never opens a direction that has ended.
pub proof fn law_directions_never_open_again(
    state: ConnState,
    n: usize,
    data: Option<ConnMsgModel>,
)
    ensures
        state_after_read(state, n).reads() == (state.reads() && n != 0),
        state_after_read(state, n).writes() == state.writes(),
        state_after_write(state, data).reads() == state.reads(),
        state_after_write(state, data).writes() ==> state.writes(),
{
}

/// Nothing is written once the end of the data was: what data comes after it is dropped.
pub proof fn law_nothing_is_written_after_eot(
    state: ConnState,
    end: ConnMsgModel,
    data: Option<ConnMsgModel>,
)
    requires
        end is Eot || end == ConnMsgModel::Data(Seq::empty()),
    ensures
        !(write_demand(state_after_write(state, Some(end)), data) is Write),
{
}

/// The connections, by identity. Their view is the list of identities and connections.
#[derive(Debug)]
pub struct Connections<H> {
    connections: VecMap<Id, H>,
}

impl<H> View for Connections<H> {
    type V = Seq<(IdModel, H)>;

    closed spec fn view(&self) -> Seq<(IdModel, H)> {
        self.connections@
    }
}

/// What a message of the other end asks for.
pub enum Demand {
    /// Nothing.
    Nothing,
    /// To connect with the terminal, under that identity.
    Connect(IdModel),
    /// To tell the connection with that identity.
    Tell(IdModel, ConnMsgModel),
    /// To end the connection with that identity.
    Close(IdModel),
}

/// What is told of a connection asks for.
pub open spec fn transmitted_demand(m: WsTransmittedModel) -> Demand {
    match m.msg {
        WsMsgModel::NewConnection => Demand::Connect(m.id),
        WsMsgModel::Data(data) => Demand::Tell(m.id, ConnMsgModel::Data(data)),
        WsMsgModel::Eot => Demand::Tell(m.id, ConnMsgModel::Eot),
        WsMsgModel::CloseConnection => Demand::Close(m.id),
    }
}

/// What a message of the other end asks for. `None` where it holds bytes that cannot be read. Only
/// bytes ask for anything.
pub open spec fn demand(msg: TungMessageModel) -> Option<Demand> {
    match msg {
        TungMessageModel::Binary(bytes) => match received(bytes) {
            Received::Message(m) => Some(transmitted_demand(m)),
            _ => None,
        },
        _ => Some(Demand::Nothing),
    }
}

/// What is to be done for a message of the other end.
#[derive(Debug)]
pub enum Action<H> {
    /// Nothing.
    Nothing,
    /// Connect with that address, and add the connection under that identity.
    Connect(Id, &'static str),
    /// Tell the connection with that identity.
    Tell(Id, ConnMsg),
    /// Tell the connection, if it still listens.
    Close(H, ConnMsg),
}

/// Where the terminal listens.
pub open spec fn ttyd_addr() -> Seq<char> {
    "127.0.0.1:7681"@
}

/// The outcome meets the demand, on the connections that there were.
pub open spec fn meets<H>(r: Action<H>, demand: Demand, before: Seq<(IdModel, H)>) -> bool {
    match demand {
        Demand::Nothing => r is Nothing,
        Demand::Connect(id) => r matches Action::Connect(i, addr) && i@ == id && addr@
            == ttyd_addr(),
        Demand::Tell(id, msg) => if vec_map::has_key(before, id) {
            r matches Action::Tell(i, m) && i@ == id && m@ == msg
        } else {
            r is Nothing
        },
        Demand::Close(id) => match vec_map::lookup(before, id) {
            Some(connection) => r matches Action::Close(c, m) && c == connection && m@
                == ConnMsgModel::Close,
            None => r is Nothing,
        },
    }
}

/// The connections that are left once a demand was met. One that is to be opened is added later.
pub open spec fn left<H>(demand: Demand, before: Seq<(IdModel, H)>) -> Seq<(IdModel, H)> {
    match demand {
        Demand::Close(id) => vec_map::removed(before, id),
        _ => before,
    }
}

/// The outcome of handling what is told of a connection, and the connections that are left.
pub open spec fn handles_transmitted<H>(
    r: Action<H>,
    m: WsTransmittedModel,
    before: Seq<(IdModel, H)>,
    after: Seq<(IdModel, H)>,
) -> bool {
    &&& meets(r, transmitted_demand(m), before)
    &&& after == left(transmitted_demand(m), before)
}

impl<H> Connections<H> {
    /// No connections.
    pub fn new() -> (r: Self)
        ensures
            r@ == Seq::<(IdModel, H)>::empty(),
    {
        Self { connections: VecMap::new() }
    }

    /// Adds a connection, and hands back the one that it replaces.
    pub fn add_connection(&mut self, connection: H, id: Id) -> (r: Option<H>)
        ensures
            final(self)@ == vec_map::inserted(old(self)@, id@, connection),
            r == vec_map::lookup(old(self)@, id@),
    {
        self.connections.insert(id, connection)
    }

    /// The connection with that identity. Every identity occurs once.
    pub fn get_connection(&self, id: &Id) -> (r: Option<&H>)
        ensures
            match r {
                Some(connection) => vec_map::lookup(self@, id@) == Some(*connection),
                None => vec_map::lookup(self@, id@) is None,
            },
            vec_map::distinct_keys(self@),
    {
        proof {
            use_type_invariant(&self.connections);
        }
        self.connections.get(id)
    }

    /// How many connections there are. Every identity occurs once.
    pub fn len(&self) -> (n: usize)
        ensures
            n == self@.len(),
            vec_map::distinct_keys(self@),
    {
        proof {
            use_type_invariant(&self.connections);
        }
        self.connections.len()
    }

    /// Handles what is told of a connection.
    pub fn handle_transmitted(&mut self, transmitted: WsTransmitted) -> (r: Action<H>)
        ensures
            meets(r, transmitted_demand(transmitted@), old(self)@),
            final(self)@ == left(transmitted_demand(transmitted@), old(self)@),
            handles_transmitted(r, transmitted@, old(self)@, final(self)@),
            match (transmitted@.msg, vec_map::lookup(old(self)@, transmitted@.id)) {
                (WsMsgModel::NewConnection, _) => r matches Action::Connect(id, addr) && id@
                    == transmitted@.id && addr@ == "127.0.0.1:7681"@,
                (_, None) => r is Nothing,
                (WsMsgModel::Data(data), Some(_)) => r matches Action::Tell(id, msg) && id@
                    == transmitted@.id && msg@ == ConnMsgModel::Data(data),
                (WsMsgModel::Eot, Some(_)) => r matches Action::Tell(id, msg) && id@
                    == transmitted@.id && msg is Eot,
                (WsMsgModel::CloseConnection, Some(connection)) => r matches Action::Close(c, msg)
                    && c == connection && msg is Close,
            },
    {
        let (id, msg) = transmitted.into_inner();
        match msg {
            WsMsg::NewConnection => Action::Connect(id, "127.0.0.1:7681"),
            WsMsg::Data(data) => match self.connections.get(&id) {
                Some(_) => Action::Tell(id, ConnMsg::Data(data)),
                None => Action::Nothing,
            },
            WsMsg::Eot => match self.connections.get(&id) {
                Some(_) => Action::Tell(id, ConnMsg::Eot),
                None => Action::Nothing,
            },
            WsMsg::CloseConnection => match self.connections.remove(&id) {
                Some(connection) => Action::Close(connection, ConnMsg::Close),
                None => Action::Nothing,
            },
        }
    }

    /// Handles a message of the other end. Its bytes must be those of a message.
    pub fn handle_msg(&mut self, msg: TungMessage) -> (r: Action<H>)
        requires
            demand(msg@) is Some,
        ensures
            demand(msg@) matches Some(demand) && meets(r, demand, old(self)@) && final(self)@
                == left(demand, old(self)@),
    {
        match msg {
            TungMessage::Binary(bytes) => match WsTransmitted::decode(bytes.as_slice()) {
                Ok(transmitted) => self.handle_transmitted(transmitted),
                Err(_) => Action::Nothing,
            },
            _ => Action::Nothing,
        }
    }

    /// Handles a message of the other end. `None`, with nothing changed, where its bytes are not
    /// those of a message.
    pub fn handle_msg_checked(&mut self, msg: TungMessage) -> (r: Option<Action<H>>)
        ensures
            match (r, demand(msg@)) {
                (Some(r), Some(demand)) => meets(r, demand, old(self)@) && final(self)@ == left(
                    demand,
                    old(self)@,
                ),
                (None, None) => final(self)@ == old(self)@,
                _ => false,
            },
    {
        if let TungMessage::Binary(bytes) = &msg {
            match WsTransmitted::decode_checked(bytes.as_slice()) {
                Some(Ok(_)) => {},
                _ => {
                    return None;
                },
            }
        }
        Some(self.handle_msg(msg))
    }

    /// Adds a connection that was accepted, and gives the connection that it replaces and the
    /// message that tells the other end of it.
    pub fn handle_new_connection(&mut self, connection: H, id: Id) -> (r: (Option<H>, TungMessage))
        ensures
            final(self)@ == vec_map::inserted(old(self)@, id@, connection),
            r.0 == vec_map::lookup(old(self)@, id@),
            r.1@ == TungMessageModel::Binary(
                transmitted_bytes(
                    WsTransmittedModel { id: id@, msg: WsMsgModel::NewConnection },
                ),
            ),
    {
        let replaced = self.add_connection(connection, id.clone());
        let msg = WsTransmitted { id, msg: WsMsg::NewConnection };
        let bytes = msg.encode().unwrap();
        (replaced, TungMessage::Binary(bytes))
    }
}

/// What the other end is told of what comes from a connection.
pub open spec fn told(msg: ConnMsgModel) -> WsMsgModel {
    match msg {
        ConnMsgModel::Data(data) => WsMsgModel::Data(data),
        ConnMsgModel::Eot => WsMsgModel::Eot,
        ConnMsgModel::Close => WsMsgModel::CloseConnection,
    }
}

/// The message that tells the other end what comes from a connection. There is none once all
/// connections are gone.
pub fn recv_tcp(data: Option<Transmitted>) -> (r: Option<TungMessage>)
    ensures
        match data {
            Some(data) => r matches Some(msg) && msg@ == TungMessageModel::Binary(
                transmitted_bytes(WsTransmittedModel { id: data@.id, msg: told(data@.msg) }),
            ),
            None => r is None,
        },
{
    match data {
        Some(Transmitted { id, msg }) => {
            let bridge_data = match msg {
                ConnMsg::Data(data) => WsTransmitted { id, msg: WsMsg::Data(data) },
                ConnMsg::Eot => WsTransmitted { id, msg: WsMsg::Eot },
                ConnMsg::Close => WsTransmitted { id, msg: WsMsg::CloseConnection },
            };
            let bytes = bridge_data.encode().unwrap();
            Some(TungMessage::Binary(bytes))
        },
        None => None,
    }
}

/// What the next item of the stream with the other end means.
#[derive(Debug)]
pub enum Next {
    /// Handle the message.
    Handle(TungMessage),
    /// Report the error, and go on.
    Report(TungError),
    /// End.
    Stop,
}

/// What the next item of the stream with the other end means to a device. The end of the stream ends
/// it.
pub fn device_next(item: Option<Result<TungMessage, TungError>>) -> (r: Next)
    ensures
        match item {
            Some(Ok(msg)) => r == Next::Handle(msg),
            Some(Err(err)) => r == Next::Report(err),
            None => r is Stop,
        },
{
    match item {
        Some(Ok(msg)) => Next::Handle(msg),
        Some(Err(err)) => Next::Report(err),
        None => Next::Stop,
    }
}

/// What one end tells of a connection reaches the connection with the same identity at the other
/// end, as it was told.
pub proof fn law_told_is_tell<H>(t: TransmittedModel, r: Action<H>, before: Seq<(IdModel, H)>)
    requires
        transmitted_bytes(WsTransmittedModel { id: t.id, msg: told(t.msg) }).len() <= u64::MAX,
        vec_map::has_key(before, t.id),
        demand(
            TungMessageModel::Binary(
                transmitted_bytes(WsTransmittedModel { id: t.id, msg: told(t.msg) }),
            ),
        ) matches Some(demand) && meets(r, demand, before),
    ensures
        match r {
            Action::Tell(id, msg) => id@ == t.id && msg@ == t.msg && !(t.msg is Close),
            Action::Close(connection, msg) => Some(connection) == vec_map::lookup(before, t.id)
                && msg@ == t.msg && t.msg is Close,
            _ => false,
        },
{
    law_transmitted_survives_wire(WsTransmittedModel { id: t.id, msg: told(t.msg) });
}

/// A connection that one end accepted is opened by the other end under the same identity.
pub proof fn law_new_connection_is_opened<H>(id: IdModel, r: Action<H>, before: Seq<(IdModel, H)>)
    requires
        transmitted_bytes(WsTransmittedModel { id, msg: WsMsgModel::NewConnection }).len()
            <= u64::MAX,
        demand(
            TungMessageModel::Binary(
                transmitted_bytes(WsTransmittedModel { id, msg: WsMsgModel::NewConnection }),
            ),
        ) matches Some(demand) && meets(r, demand, before),
    ensures
        r matches Action::Connect(i, addr) && i@ == id && addr@ == ttyd_addr(),
{
    law_transmitted_survives_wire(WsTransmittedModel { id, msg: WsMsgModel::NewConnection });
}

/// Every message leaves the connections that it does not close as they are, and none that it closes.
pub proof fn law_other_connections_are_kept<H>(
    demand: Demand,
    before: Seq<(IdModel, H)>,
    id: IdModel,
)
    requires
        vec_map::distinct_keys(before),
    ensures
        vec_map::distinct_keys(left(demand, before)),
        vec_map::lookup(left(demand, before), id) == if demand == Demand::Close(id) {
            None
        } else {
            vec_map::lookup(before, id)
        },
{
    if let Demand::Close(closed) = demand {
        vec_map::law_removed(before, closed, id);
    }
}

/// While a connection is open for writing, data that is not empty is written as it is, the whole of
/// it, and the connection stays as open as it was.
pub proof fn law_data_is_written_whole(
    before: ConnState,
    data: Seq<u8>,
    step: Step,
    after: ConnState,
)
    requires
        before is ReadWrite || before is Write,
        data.len() > 0,
        takes_write(before, Some(ConnMsgModel::Data(data)), step, after),
    ensures
        step matches Step::Write(written) && written@.len() == data.len() && forall|i: int|
            0 <= i < data.len() ==> #[trigger] written@[i] == data[i],
        after == before,
{
}

/// Once a connection is not open for writing any more, data that is not empty is dropped, and
/// nothing changes.
pub proof fn law_late_data_is_dropped(
    before: ConnState,
    data: Seq<u8>,
    step: Step,
    after: ConnState,
)
    requires
        before is Read || before is Closed,
        data.len() > 0,
        takes_write(before, Some(ConnMsgModel::Data(data)), step, after),
    ensures
        step is Continue,
        after == before,
{
}

/// The end of the data, and empty data, shut the stream down in whatever state, and end the writing
/// and nothing else.
pub proof fn law_end_of_data_ends_the_writing(
    before: ConnState,
    end: ConnMsgModel,
    step: Step,
    after: ConnState,
)
    requires
        end is Eot || (end matches ConnMsgModel::Data(data) && data.len() == 0),
        takes_write(before, Some(end), step, after),
    ensures
        step is Shutdown,
        after == match before {
            ConnState::ReadWrite => ConnState::Read,
            ConnState::Write => ConnState::Closed,
            shut => shut,
        },
{
}

/// A closure, and a dropped channel, close the connection in whatever state. It stays as it is until
/// that is done.
pub proof fn law_closure_closes(
    before: ConnState,
    data: Option<ConnMsgModel>,
    step: Step,
    after: ConnState,
)
    requires
        data is None || data == Some(ConnMsgModel::Close),
        takes_write(before, data, step, after),
    ensures
        step is Close,
        after == before,
{
}

/// What was read is handed on byte by byte, as many bytes as were read. No bytes are the end of the
/// data, and end the reading and nothing else.
pub proof fn law_read_bytes_are_handed_on(state: ConnState, n: usize, buf: Seq<u8>)
    requires
        n <= buf.len(),
    ensures
        n == 0 ==> read_msg(n, buf) is Eot && !state_after_read(state, n).reads(),
        n > 0 ==> state_after_read(state, n) == state && (read_msg(n, buf) matches
            ConnMsgModel::Data(data) && data.len() == n && forall|i: int|
            0 <= i < n ==> #[trigger] data[i] == buf[i]),
        state_after_read(state, n).writes() == state.writes(),
{
}

/// What is told of a connection goes on the wire as its kind, with its data, and comes off it as the
/// same kind with the same data.
pub proof fn law_msg_keeps_its_kind_on_the_wire(data: Seq<u8>)
    ensures
        wire_msg(WsMsgModel::NewConnection) == items::ws_msg::WsMsgTypeModel::NewConnection,
        wire_msg(WsMsgModel::Eot) == items::ws_msg::WsMsgTypeModel::Eot,
        wire_msg(WsMsgModel::CloseConnection) == items::ws_msg::WsMsgTypeModel::CloseConnection,
        wire_msg(WsMsgModel::Data(data)) == items::ws_msg::WsMsgTypeModel::Data(data),
        msg_of(items::ws_msg::WsMsgTypeModel::NewConnection) == WsMsgModel::NewConnection,
        msg_of(items::ws_msg::WsMsgTypeModel::Eot) == WsMsgModel::Eot,
        msg_of(items::ws_msg::WsMsgTypeModel::CloseConnection) == WsMsgModel::CloseConnection,
        msg_of(items::ws_msg::WsMsgTypeModel::Data(data)) == WsMsgModel::Data(data),
{
}

/// A message on the wire holds what is told of a connection where all its parts are there and its
/// port is one: under the same port and host, and of the same kind. Otherwise it is malformed or
/// lacks a part.
pub proof fn law_received(
    bytes: Seq<u8>,
    port: u32,
    host: Seq<char>,
    kind: items::ws_msg::WsMsgTypeModel,
    msg: Option<items::WsMsgModel>,
)
    ensures
        ({
            let read = wire::read_message::<items::WsTransmitted>(bytes);
            let id = Some(items::IdModel { port, host });
            let whole = Some(items::WsMsgModel { ws_msg_type: Some(kind) });
            &&& read is None ==> received(bytes) is Malformed
            &&& read == Some(items::WsTransmittedModel { id, msg: whole }) && port <= 65535 ==> (
            received(bytes) matches Received::Message(m) && m.id.port as int == port as int
                && m.id.host == host && m.msg == msg_of(kind))
            &&& read == Some(items::WsTransmittedModel { id, msg }) && port > 65535 ==> received(
                bytes,
            ) is Malformed
            &&& read == Some(items::WsTransmittedModel { id, msg: None }) && port <= 65535
                ==> received(bytes) is Incomplete
            &&& read == Some(
                items::WsTransmittedModel {
                    id,
                    msg: Some(items::WsMsgModel { ws_msg_type: None }),
                },
            ) && port <= 65535 ==> received(bytes) is Incomplete
            &&& read == Some(items::WsTransmittedModel { id: None, msg }) ==> received(
                bytes,
            ) is Incomplete
        }),
{
}

/// What reading bytes tells: what was received, or that the bytes are malformed.
pub proof fn law_received_is_told(
    r: Result<WsTransmitted, ()>,
    bytes: Seq<u8>,
    m: WsTransmittedModel,
)
    requires
        tells(r, received(bytes)),
    ensures
        received(bytes) == Received::Message(m) <==> (r matches Ok(msg) && msg@ == m),
        received(bytes) is Malformed <==> r is Err,
{
}

/// What comes from a connection is told as what it is: data as that data, the end of the data as
/// that, and the end of the connection as that.
pub proof fn law_told_is_what_comes(data: Seq<u8>)
    ensures
        told(ConnMsgModel::Data(data)) == WsMsgModel::Data(data),
        told(ConnMsgModel::Eot) == WsMsgModel::Eot,
        told(ConnMsgModel::Close) == WsMsgModel::CloseConnection,
{
}

/// Data for a connection that is there is told to it as it is, and so is the end of the data. The
/// connections stay as they are.
pub proof fn law_data_reaches_its_connection<H>(
    r: Action<H>,
    m: WsTransmittedModel,
    before: Seq<(IdModel, H)>,
    after: Seq<(IdModel, H)>,
)
    requires
        exists|i: int| 0 <= i < before.len() && (#[trigger] before[i]).0 == m.id,
        m.msg is Data || m.msg is Eot,
        handles_transmitted(r, m, before, after),
    ensures
        r matches Action::Tell(to, told) && to@ == m.id && match m.msg {
            WsMsgModel::Data(data) => told matches ConnMsg::Data(d) && d@ == data,
            _ => told is Eot,
        },
        after == before,
{
    let i = choose|i: int| 0 <= i < before.len() && (#[trigger] before[i]).0 == m.id;
    assert(vec_map::has_key(before, before[i].0));
}

/// The end of a connection takes it out, and it is told to close.
pub proof fn law_end_takes_its_connection_out<H>(
    r: Action<H>,
    i: int,
    before: Seq<(IdModel, H)>,
    after: Seq<(IdModel, H)>,
)
    requires
        vec_map::distinct_keys(before),
        0 <= i < before.len(),
        handles_transmitted(
            r,
            WsTransmittedModel { id: before[i].0, msg: WsMsgModel::CloseConnection },
            before,
            after,
        ),
    ensures
        r matches Action::Close(connection, ConnMsg::Close) && connection == before[i].1,
        after == before.remove(i),
{
    vec_map::lemma_position(before, i);
}

/// What is told of a connection that is not there is discarded, unless it is new.
pub proof fn law_unknown_connection_discards<H>(
    r: Action<H>,
    m: WsTransmittedModel,
    before: Seq<(IdModel, H)>,
    after: Seq<(IdModel, H)>,
)
    requires
        forall|i: int| 0 <= i < before.len() ==> (#[trigger] before[i]).0 != m.id,
        !(m.msg is NewConnection),
        handles_transmitted(r, m, before, after),
    ensures
        r is Nothing,
        after == before,
{
}

/// A new connection is opened with the terminal at its address under the identity that is told,
/// whatever connections there are, and touches none of them yet.
pub proof fn law_new_connection_connects<H>(
    r: Action<H>,
    id: IdModel,
    before: Seq<(IdModel, H)>,
    after: Seq<(IdModel, H)>,
)
    requires
        handles_transmitted(
            r,
            WsTransmittedModel { id, msg: WsMsgModel::NewConnection },
            before,
            after,
        ),
    ensures
        r matches Action::Connect(to, addr) && to@ == id && addr@ == "127.0.0.1:7681"@,
        after == before,
{
}

/// Of the messages of the other end only bytes ask for anything, and they ask for what is received.
/// Bytes that are not a message, or lack a part of it, cannot be handled.
pub proof fn law_bytes_are_handled_as_received(msg: TungMessageModel)
    ensures
        match msg {
            TungMessageModel::Binary(bytes) => match received(bytes) {
                Received::Message(m) => demand(msg) == Some(transmitted_demand(m)),
                _ => demand(msg) is None,
            },
            _ => demand(msg) == Some(Demand::Nothing),
        },
{
}

/// An identity in print is its port in decimal and its host, in brackets and with a comma between
/// them, so that two that differ are printed differently.
pub proof fn law_id_in_print(a: IdModel, b: IdModel)
    ensures
        a.text() == seq!['('] + text::decimal(a.port as nat) + seq![','] + a.host + seq![')'],
        a.text() == b.text() ==> a == b,
{
    reveal_strlit("(");
    reveal_strlit(",");
    reveal_strlit(")");
    assert("("@ =~= seq!['(']);
    assert(","@ =~= seq![',']);
    assert(")"@ =~= seq![')']);
    if a.text() == b.text() {
        let da = text::decimal(a.port as nat);
        let db = text::decimal(b.port as nat);
        let inner = a.text().subrange(1, a.text().len() - 1);
        assert(inner =~= da + seq![','] + a.host);
        assert(inner =~= db + seq![','] + b.host);
        text::law_decimal(a.port as nat);
        text::law_decimal(b.port as nat);
        assert(inner[da.len() as int] == ',' && inner[db.len() as int] == ',');
        if da.len() < db.len() {
            assert(inner[da.len() as int] == db[da.len() as int]);
        }
        if db.len() < da.len() {
            assert(inner[db.len() as int] == da[db.len() as int]);
        }
        assert(inner.take(da.len() as int) =~= da);
        assert(inner.take(da.len() as int) =~= db);
        assert(inner.skip((da.len() + 1) as int) =~= a.host);
        assert(inner.skip((da.len() + 1) as int) =~= b.host);
        text::law_decimal_tells_numbers_apart(a.port as nat, b.port as nat);
    }
}

/// A message views as its kind, with its data.
pub proof fn law_messages_view_as_their_kind(data: Vec<u8>, msg: ConnMsg)
    ensures
        ConnMsg::Data(data)@ == ConnMsgModel::Data(data@),
        ConnMsg::Eot@ == ConnMsgModel::Eot,
        ConnMsg::Close@ == ConnMsgModel::Close,
        WsMsg::NewConnection@ == WsMsgModel::NewConnection,
        WsMsg::Eot@ == WsMsgModel::Eot,
        WsMsg::CloseConnection@ == WsMsgModel::CloseConnection,
        WsMsg::Data(data)@ == WsMsgModel::Data(data@),
        conn_option(Some(msg)) == Some(msg@),
        conn_option(None) is None,
{
}

/// The bytes of what is told of a connection hold its port, its host and its message.
pub proof fn law_transmitted_bytes(m: WsTransmittedModel)
    requires
        transmitted_bytes(m).len() <= u64::MAX,
    ensures
        wire::read_message::<items::WsTransmitted>(transmitted_bytes(m)) == Some(
            items::WsTransmittedModel {
                id: Some(items::IdModel { port: m.id.port as u32, host: m.id.host }),
                msg: Some(items::WsMsgModel { ws_msg_type: Some(wire_msg(m.msg)) }),
            },
        ),
{
    items::law_ws_transmitted_round_trip(
        items::WsTransmittedModel {
            id: Some(items::IdModel { port: m.id.port as u32, host: m.id.host }),
            msg: Some(items::WsMsgModel { ws_msg_type: Some(wire_msg(m.msg)) }),
        },
        wire::MAX_DEPTH,
    );
}

} // verus!
