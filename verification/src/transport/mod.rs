//! The two ends of one connection and the envelopes that travel between them.

pub mod connect;
pub mod message;
pub mod native;
pub mod waiter;

pub use connect::Connector;
pub use message::{Incoming, TranportMesssage};
