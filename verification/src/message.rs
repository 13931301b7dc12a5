//! A call as it travels inside one process.

use futures::channel::oneshot;
use vstd::prelude::*;

use crate::error::Reply;

verus! {

/// A request on its way to a service in the same process, together with the
/// channel on which the caller waits for the answer.
#[verifier::reject_recursive_types(ServiceResponse)]
pub struct Request<ServiceRequest, ServiceResponse> {
    pub request: ServiceRequest,
    pub response_sender: oneshot::Sender<Reply<ServiceResponse>>,
}

impl<ServiceRequest, ServiceResponse> Request<ServiceRequest, ServiceResponse> {
    /// Packs `request` with the sending half of a fresh channel and returns
    /// the receiving half, on which the caller waits.
    pub fn new(request: ServiceRequest) -> (call: (
        Self,
        oneshot::Receiver<Reply<ServiceResponse>>,
    ))
        ensures
            call.0.request == request,
    {
        let (tx, rx) = oneshot::channel();
        (Request { request, response_sender: tx }, rx)
    }
}

/// Sends the answer of the service, as it is and once, on `response_sender`,
/// to the caller that waits on its other half. What comes back is what the
/// send left: nothing where the answer went through, which is for the
/// channel to say, and the answer where the caller has stopped waiting. That
/// is no error: the answer is then discarded. The answer may be a response
/// or a failure that the service reported.
pub fn respond<ServiceResponse>(
    response_sender: oneshot::Sender<Reply<ServiceResponse>>,
    outcome: Reply<ServiceResponse>,
) -> (undelivered: Option<Reply<ServiceResponse>>)
    ensures
        exists|sent: Result<(), Reply<ServiceResponse>>|
            call_ensures(
                oneshot::Sender::<Reply<ServiceResponse>>::send,
                (response_sender, outcome),
                sent,
            ) && undelivered == left_unsent(sent),
        undelivered matches Some(returned) ==> returned == outcome,
{
    unsent(response_sender.send(outcome))
}

/// What a send on a one-shot channel leaves in the sender's hand: nothing
/// where the value went through, and the value itself where the receiving
/// half was gone.
pub open spec fn left_unsent<T>(sent: Result<(), T>) -> Option<T> {
    match sent {
        Ok(()) => None,
        Err(returned) => Some(returned),
    }
}

/// Takes what a send on a one-shot channel returned and gives what it left
/// in the sender's hand: nothing after a send that went through, and after a
/// send that did not, the value that came back.
pub fn unsent<T>(sent: Result<(), T>) -> (left: Option<T>)
    ensures
        left == left_unsent(sent),
{
    match sent {
        Ok(()) => None,
        Err(returned) => Some(returned),
    }
}

} // verus!
