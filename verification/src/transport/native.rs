//! The transport between a caller and a service in the same process.

use futures::channel::mpsc;
use vstd::prelude::*;

use crate::message;

verus! {

/// The largest buffer that [`channel`] can be asked for.
pub open spec fn max_buffer() -> usize {
    usize::MAX / 4
}

/// Makes the queue that carries calls from callers to a service in the same
/// process: the two halves that `futures::channel::mpsc::channel` makes for
/// `buffer`, a queue for up to `buffer` calls and one more for each sender.
pub fn channel<Request, Response>(buffer: usize) -> (halves: (
    mpsc::Sender<message::Request<Request, Response>>,
    mpsc::Receiver<message::Request<Request, Response>>,
))
    requires
        buffer < max_buffer(),
    ensures
        call_ensures(mpsc::channel::<message::Request<Request, Response>>, (buffer,), halves),
{
    mpsc::channel(buffer)
}

} // verus!
