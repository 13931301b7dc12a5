//! A transport-agnostic RPC multiplexing core.
//!
//! Many concurrent request/response exchanges share one ordered transport.
//! Every request travels in an envelope that carries a correlation id, and
//! the response that comes back under the same id is handed to the caller
//! that issued the request. This crate holds the bookkeeping of both ends as
//! plain state machines: they decide, and the code that owns the sockets and
//! the tasks performs what they decided.

pub mod client;
pub mod error;
pub mod lazy;
pub mod message;
pub mod net;
pub mod server;
pub mod service;
pub mod sync;
pub mod transport;

pub use error::{CallError, ServiceError};
