//! Connection-management core of a peer-to-peer TCP stack.
//!
//! The library models the lifecycle of inbound and outbound connections:
//! admission against a capacity bound, the connecting/active partition of
//! peer addresses, the fixed protocol-handler pipeline, disconnection and
//! graceful shutdown. Every state transition is an executable function with
//! a verified contract; the asynchronous I/O that drives the transitions
//! lives outside the library.

pub mod addr;
pub mod cli;
pub mod config;
pub mod connection;
pub mod connections;
pub mod decimal;
pub mod error;
pub mod known_peers;
pub mod ping;
pub mod protocols;
pub mod stats;
pub mod tcp;

pub use addr::{IpAddress, SocketAddr};
pub use config::{BindPlan, Config};
pub use connection::{Connection, ConnectionSide};
pub use error::TcpError;
pub use ping::Ping;
pub use tcp::{Tcp, TcpView};
