//! WebSocket frames as the multiplexer sees them.
//!
//! A WebSocket connection carries more than payloads: pings, pongs and the
//! closing handshake travel on it too. The functions here tell the frames
//! apart and take out of each what the layers above need.

use std::borrow::Cow;
use vstd::prelude::*;
use vstd::string::*;
use vstd::utf8::encode_utf8;

use crate::transport::message::TranportMesssage;

verus! {

/// The reason a peer gave for closing the connection.
#[derive(Debug)]
pub struct CloseFrame {
    pub code: u16,
    pub reason: Cow<'static, str>,
}

/// One WebSocket frame.
#[derive(Debug)]
pub enum Message {
    Binary(Vec<u8>),
    Text(String),
    Ping(Vec<u8>),
    Pong(Vec<u8>),
    Close(Option<CloseFrame>),
}

/// What a frame that came in means to the layer that reads envelopes.
#[derive(Debug)]
pub enum Inbound {
    /// The frame carried an encoded envelope: these are its bytes.
    Payload(Vec<u8>),
    /// The frame belongs to the connection's upkeep and carries nothing for
    /// the reader.
    Skip,
    /// The peer closed the connection.
    Closed(Option<CloseFrame>),
}

impl Message {
    /// The bytes that a frame carries: the payload of a binary frame, a ping
    /// or a pong, the UTF-8 encoding of a text frame, and of a close frame
    /// the UTF-8 encoding of its reason, or nothing where none was given.
    pub open spec fn data(self) -> Seq<u8> {
        match self {
            Message::Binary(data) => data@,
            Message::Text(text) => encode_utf8(text@),
            Message::Ping(data) => data@,
            Message::Pong(data) => data@,
            Message::Close(Some(frame)) => encode_utf8(frame.reason@),
            Message::Close(None) => Seq::empty(),
        }
    }

    /// Takes the frame's bytes out of it.
    pub fn into_data(self) -> (data: Vec<u8>)
        ensures
            data@ == self.data(),
    {
        match self {
            Message::Text(text) => text.as_str().as_bytes_vec(),
            Message::Binary(data) => data,
            Message::Ping(data) => data,
            Message::Pong(data) => data,
            Message::Close(None) => Vec::new(),
            Message::Close(Some(frame)) => match frame.reason {
                Cow::Borrowed(reason) => reason.as_bytes_vec(),
                Cow::Owned(reason) => reason.as_str().as_bytes_vec(),
            },
        }
    }

    /// Whether the frame carries a payload: whether it is a binary or a text
    /// frame.
    pub fn is_data(&self) -> (data: bool)
        ensures
            data == (self is Binary || self is Text),
    {
        match self {
            Message::Binary(_) => true,
            Message::Text(_) => true,
            _ => false,
        }
    }

    /// Whether the frame is a ping or a pong.
    pub fn is_heartbeat(&self) -> (heartbeat: bool)
        ensures
            heartbeat == (self is Ping || self is Pong),
    {
        match self {
            Message::Ping(_) => true,
            Message::Pong(_) => true,
            _ => false,
        }
    }

    /// Sorts a frame that came in: a binary or a text frame gives up its
    /// bytes as a payload, a ping or a pong is skipped, and a close frame
    /// reports the end of the connection with the reason that came with it.
    pub fn into_inbound(self) -> (inbound: Inbound)
        ensures
            match self {
                Message::Binary(data) => inbound matches Inbound::Payload(bytes) && bytes@
                    == data@,
                Message::Text(text) => inbound matches Inbound::Payload(bytes) && bytes@
                    == encode_utf8(text@),
                Message::Ping(_) => inbound is Skip,
                Message::Pong(_) => inbound is Skip,
                Message::Close(frame) => inbound == Inbound::Closed(frame),
            },
    {
        match self {
            Message::Binary(data) => Inbound::Payload(data),
            Message::Text(text) => Inbound::Payload(text.as_str().as_bytes_vec()),
            Message::Ping(_) => Inbound::Skip,
            Message::Pong(_) => Inbound::Skip,
            Message::Close(frame) => Inbound::Closed(frame),
        }
    }
}

/// The envelope of the WebSocket wire format, whose ids are signed.
#[derive(Debug)]
pub struct WsRpcMessage<Value> {
    pub id: i64,
    pub value: Value,
}

impl<Value> WsRpcMessage<Value> {
    /// The envelope `envelope` in the WebSocket wire format, where its id
    /// fits there.
    pub fn from_envelope(envelope: TranportMesssage<Value>) -> (wire: Result<
        WsRpcMessage<Value>,
        TranportMesssage<Value>,
    >)
        ensures
            envelope.id <= i64::MAX ==> wire == Ok::<WsRpcMessage<Value>, TranportMesssage<Value>>(
                WsRpcMessage { id: envelope.id as i64, value: envelope.message },
            ),
            envelope.id > i64::MAX ==> wire == Err::<WsRpcMessage<Value>, TranportMesssage<Value>>(
                envelope,
            ),
    {
        if envelope.id as u64 <= i64::MAX as u64 {
            Ok(WsRpcMessage { id: envelope.id as i64, value: envelope.message })
        } else {
            Err(envelope)
        }
    }

    /// The envelope that this wire message stands for, where its id is one
    /// that a call can have.
    pub fn into_envelope(self) -> (envelope: Result<TranportMesssage<Value>, WsRpcMessage<Value>>)
        ensures
            0 <= self.id <= usize::MAX ==> envelope == Ok::<
                TranportMesssage<Value>,
                WsRpcMessage<Value>,
            >(TranportMesssage { id: self.id as usize, message: self.value }),
            !(0 <= self.id <= usize::MAX) ==> envelope == Err::<
                TranportMesssage<Value>,
                WsRpcMessage<Value>,
            >(self),
    {
        if self.id >= 0 && self.id as u64 <= usize::MAX as u64 {
            Ok(TranportMesssage { id: self.id as usize, message: self.value })
        } else {
            Err(self)
        }
    }
}

} // verus!
