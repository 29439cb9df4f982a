//! Port forwarding between a device and a remote host over a WebSocket.

pub mod astarte;
pub mod conn_state;
pub mod connection;
pub mod connections;
pub mod device;
pub mod forwarder;
pub mod header_map;
pub mod headers;
pub mod items;
pub mod proto;
pub mod proto_message;
pub mod text;
pub mod tung_message;
pub mod tunnel;
pub mod vec_map;
pub mod web_url;
pub mod wire;
