//! The envelope that ties a payload to the call it belongs to.

use vstd::prelude::*;

verus! {

/// A payload together with the correlation id of its call.
///
/// A request and its response travel under the same id; nothing else links
/// the two.
#[derive(Debug)]
pub struct TranportMesssage<T> {
    pub id: usize,
    pub message: T,
}

impl<T> TranportMesssage<T> {
    /// Wraps `message` under `id`.
    pub fn new(id: usize, message: T) -> (envelope: Self)
        ensures
            envelope.id == id,
            envelope.message == message,
    {
        TranportMesssage { id, message }
    }

    /// Takes the envelope apart again.
    pub fn into_parts(self) -> (parts: (usize, T))
        ensures
            parts.0 == self.id,
            parts.1 == self.message,
    {
        (self.id, self.message)
    }
}

/// What reading the source of a connection can yield.
#[derive(Debug)]
pub enum Incoming<T> {
    /// The next envelope.
    Envelope(TranportMesssage<T>),
    /// The read failed.
    Failed,
    /// The source has ended: the connection is closed.
    Ended,
}

} // verus!
