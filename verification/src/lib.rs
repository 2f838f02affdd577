//! A port forwarder's decision core.
//!
//! The forwarder relays TCP byte streams and UDP datagrams between a listening
//! endpoint and one fixed target. This crate holds everything the forwarder
//! decides: which socket operation comes next, how connections are paired and
//! torn down, and which UDP session serves which client. It performs no I/O.
//! A driver carries out each [`Action`] the [`Engine`] asks for and reports the
//! [`Outcome`] back.

pub mod config;
pub mod endpoint;
pub mod engine;
pub mod laws;
pub mod model;
pub mod protocol;
pub mod registry;
pub mod sessions;

pub use endpoint::{get_ipv4_socket_addr, Endpoint, ResolveError, Resolved, Token};
pub use sessions::{SessionTable, UdpSession};
pub use registry::{ConnState, PairTable, TcpConnection};
pub use model::{Dispatch, EngineView};
pub use protocol::{Action, Fatal, Outcome, Phase, Readiness, Ready};
pub use engine::{forward, Engine};
pub use config::{format_address_pair, parse_address_pair};
