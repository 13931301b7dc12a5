//! Completing the callers that wait on a channel.
//!
//! A caller that waits on the receiving half of a one-shot channel files the
//! sending half with the connector. What the connector hands back is
//! completed here.

use futures::channel::oneshot;
use vstd::prelude::*;

use crate::error::{resolved, CallError, Reply};
use crate::transport::connect::{Connector, Delivery, Failed, Phase};
use crate::transport::message::TranportMesssage;

verus! {

/// The completion handle of a caller that waits on a one-shot channel.
pub type Waiter<Response> = oneshot::Sender<Result<Response, CallError>>;

/// The receiving half on which a caller waits for the result of its call.
pub type Waiting<Response> = oneshot::Receiver<Result<Response, CallError>>;

/// Issues a call for a caller that waits on a one-shot channel: makes the
/// channel, files its sending half with `connector` and returns the envelope
/// to write to the sink together with the receiving half, on which the
/// caller waits.
///
/// The call is accepted exactly when the connector is active. Otherwise
/// nothing changes and the request comes back.
pub fn issue<Request, Response>(
    connector: &mut Connector<Waiter<Response>>,
    request: Request,
) -> (issued: Result<(TranportMesssage<Request>, Waiting<Response>), Request>)
    ensures
        old(connector)@.wf(),
        final(connector)@.wf(),
        old(connector)@.phase == Phase::Active ==> {
            &&& issued matches Ok(call)
            &&& call.0.id == old(connector)@.upcoming_id()
            &&& call.0.message == request
            &&& !old(connector)@.pending.contains_key(call.0.id)
            &&& exists|waiter: Waiter<Response>|
                final(connector)@ == old(connector)@.issue(waiter)
        },
        old(connector)@.phase != Phase::Active ==> {
            &&& issued == Err::<(TranportMesssage<Request>, Waiting<Response>), Request>(request)
            &&& final(connector)@ == old(connector)@
        },
{
    let (tx, rx) = oneshot::channel();
    match connector.send_request(request, tx) {
        Ok(envelope) => Ok((envelope, rx)),
        Err(refused) => Err(refused.request),
    }
}

/// What became of a routed response.
#[derive(Debug)]
pub enum Completion<Response> {
    /// The caller has the result of its call.
    Delivered,
    /// The caller had stopped waiting: the result of its call comes back, to
    /// be discarded.
    Abandoned(Result<Response, CallError>),
    /// No call was outstanding under `id`: the response comes back, to be
    /// discarded.
    Discarded { id: usize, response: Reply<Response> },
}

/// Carries out what the connector decided for a response: the waiting
/// caller is completed with the result of its call, which is the response,
/// or the failure that the service reported.
///
/// Neither a stray response nor a caller that has stopped waiting is an
/// error. What could not be delivered comes back as it was.
pub fn complete<Response>(delivery: Delivery<Waiter<Response>, Reply<Response>>) -> (completion:
    Completion<Response>)
    ensures
        match delivery {
            Delivery::Deliver { waiter, response } => completion is Delivered || completion
                == Completion::Abandoned(resolved(response)),
            Delivery::Stray { id, response } => completion == (Completion::Discarded {
                id,
                response,
            }),
        },
{
    match delivery {
        Delivery::Deliver { waiter, response } => {
            match waiter.send(crate::error::resolve(response)) {
                Ok(()) => Completion::Delivered,
                Err(returned) => Completion::Abandoned(returned),
            }
        },
        Delivery::Stray { id, response } => Completion::Discarded { id, response },
    }
}

/// Fails a call: sends the error that ended it, once, to the completion handle
/// of its caller. What comes back is what the send left: nothing where the
/// error went through, and the error where the caller has stopped waiting.
pub fn fail<Response>(failed: Failed<Waiter<Response>>) -> (undelivered: Option<
    Result<Response, CallError>,
>)
    ensures
        exists|sent: Result<(), Result<Response, CallError>>|
            call_ensures(
                oneshot::Sender::<Result<Response, CallError>>::send,
                (failed.waiter, Err::<Response, CallError>(failed.error)),
                sent,
            ) && undelivered == crate::message::left_unsent(sent),
        undelivered matches Some(returned) ==> returned == Err::<Response, CallError>(
            failed.error,
        ),
{
    crate::message::unsent(failed.waiter.send(Err(failed.error)))
}

} // verus!
