//! Remote procedure calls that outlive the connection they were made on.
//!
//! A client sends a request to a server, which runs it as a task. The client can wait for the
//! result, or leave and come back for it later. Tasks can claim resources of the server for as long
//! as they run, and servers can be grouped into clusters.
//!
//! The library holds what clients and servers know and decide. Sockets, timers and the store in
//! which clusters are registered are left to its users.
//!
//! ## Terms
//! `c_slot` Client Communication Slot.
//! `s_slot` Server Slot
pub mod client;
pub mod client_laws;
pub mod cluster;
pub mod cluster_laws;
pub mod executor;
pub mod executor_laws;
pub mod laws;
pub mod message;
pub mod message_laws;
pub mod names;
pub mod pool_laws;
pub mod queue;
pub mod rcm;
pub mod registry;
pub mod registry_laws;
pub mod server;
pub mod server_laws;
pub mod slots;
pub mod transport;
pub mod utils;
pub mod wire_laws;

pub use crate::client::Client;
pub use crate::executor::{BoxcarExecutor, BusWrapper};
pub use crate::message::{
    BoxcarMessage, BoxcarMessageTrait, HandlerTrait, RPCTask, RpcRequest, RpcResult, WireMessage,
};
pub use crate::server::Server;
