//! What the network transports need beside the envelope.

pub mod websocket;
