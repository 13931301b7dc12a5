//! The serving end of a connection.
//!
//! A [`TransportReceiver`] keeps track of the requests that have come in and are
//! being served. Each request is handed out for dispatch on its own, so the
//! requests of one connection are served independently of each other; when
//! a request has been served, in whatever order that happens, the receiver
//! puts the service's answer into an envelope under the request's own id.
//!
//! A failure reported by the service is an answer like any other: it goes
//! back to the caller in the envelope. A failure of the transport ends the
//! listening: the receiver accepts no further request and stops once the
//! requests in flight have been served.

use vstd::multiset::Multiset;
use vstd::prelude::*;

use crate::error::{resolved, CallError, Reply, ServiceError};
use crate::transport::connect::{route_response, ConnectorView, Delivery, Phase};
use crate::transport::message::{Incoming, TranportMesssage};

verus! {

broadcast use {
    vstd::multiset::group_multiset_axioms,
    vstd::seq_lib::to_multiset_build,
    vstd::seq_lib::to_multiset_remove,
    vstd::seq_lib::to_multiset_len,
    vstd::seq_lib::to_multiset_contains,
};

/// Where the serving end of a connection is in its life.
#[derive(Clone, Copy, Debug, PartialEq, Eq, Structural)]
pub enum Stage {
    /// Requests are accepted.
    Listening,
    /// No further request is accepted; requests in flight are still being
    /// served.
    Draining,
    /// Nothing is accepted and nothing is in flight.
    Stopped,
}

impl Stage {
    /// How far along a stage is: a receiver goes from listening through
    /// draining to stopped.
    pub open spec fn rank(self) -> nat {
        match self {
            Stage::Listening => 0,
            Stage::Draining => 1,
            Stage::Stopped => 2,
        }
    }
}

/// What can happen to a receiver while the connection lasts.
pub ghost enum Event {
    /// An envelope with this id is read from the source.
    Request(usize),
    /// The service has answered a request with this id.
    Served(usize),
    /// The source ends, or the transport fails.
    Stop,
}

/// The mathematical state of a [`TransportReceiver`]: its stage and the ids of the
/// requests in flight. A peer may use an id twice, so the ids form a
/// multiset.
pub ghost struct TransportReceiverView {
    pub stage: Stage,
    pub in_flight: Multiset<usize>,
}

impl TransportReceiverView {
    /// The state of a receiver that was just made.
    pub open spec fn initial() -> Self {
        TransportReceiverView { stage: Stage::Listening, in_flight: Multiset::empty() }
    }

    /// What every reachable state satisfies: a draining receiver still has
    /// requests in flight, a stopped one has none.
    pub open spec fn wf(self) -> bool {
        &&& self.stage == Stage::Draining ==> self.in_flight.len() > 0
        &&& self.stage == Stage::Stopped ==> self.in_flight.len() == 0
    }

    /// The state after the request under `id` was accepted.
    pub open spec fn accept(self, id: usize) -> Self {
        TransportReceiverView { stage: self.stage, in_flight: self.in_flight.insert(id) }
    }

    /// The state after one request under `id` was served. The last request
    /// to leave a draining receiver stops it.
    pub open spec fn finish(self, id: usize) -> Self {
        if self.in_flight.contains(id) {
            TransportReceiverView {
                stage: if self.stage == Stage::Draining && self.in_flight.len() == 1 {
                    Stage::Stopped
                } else {
                    self.stage
                },
                in_flight: self.in_flight.remove(id),
            }
        } else {
            self
        }
    }

    /// The state after the receiver stopped listening.
    pub open spec fn stop_listening(self) -> Self {
        TransportReceiverView {
            stage: if self.stage == Stage::Listening {
                if self.in_flight.len() == 0 {
                    Stage::Stopped
                } else {
                    Stage::Draining
                }
            } else {
                self.stage
            },
            in_flight: self.in_flight,
        }
    }

    /// The state after `event`. An envelope that arrives when the
    /// receiver no longer listens changes nothing.
    pub open spec fn step(self, event: Event) -> Self {
        match event {
            Event::Request(id) => if self.stage == Stage::Listening {
                self.accept(id)
            } else {
                self
            },
            Event::Served(id) => self.finish(id),
            Event::Stop => self.stop_listening(),
        }
    }

    /// The state after each of `events` in turn.
    pub open spec fn run(self, events: Seq<Event>) -> Self
        decreases events.len(),
    {
        if events.len() == 0 {
            self
        } else {
            self.run(events.drop_last()).step(events.last())
        }
    }

    /// The envelope that answers one request in flight under `id` with
    /// `outcome`. Nothing answers a request that is not in flight.
    pub open spec fn reply<Response>(self, id: usize, outcome: Reply<Response>) -> Option<
        TranportMesssage<Reply<Response>>,
    > {
        if self.in_flight.contains(id) {
            Some(TranportMesssage { id, message: outcome })
        } else {
            None
        }
    }
}

/// A request that was accepted and is to be served, on its own and without
/// waiting for any other.
#[derive(Debug)]
pub struct Dispatch<Request> {
    pub id: usize,
    pub request: Request,
}

/// What the serving loop is to do after a read of the source.
#[derive(Debug)]
pub enum Intake<Request> {
    /// A request was accepted and is to be served.
    Serve(Dispatch<Request>),
    /// An envelope arrived after the receiver had stopped listening: it is
    /// not served.
    Refused(TranportMesssage<Request>),
    /// Nothing more is read from the source.
    Finished,
}

/// The requests in flight on one connection.
pub struct TransportReceiver {
    stage: Stage,
    in_flight: Vec<usize>,
}

impl View for TransportReceiver {
    type V = TransportReceiverView;

    closed spec fn view(&self) -> TransportReceiverView {
        TransportReceiverView { stage: self.stage, in_flight: self.in_flight@.to_multiset() }
    }
}

impl TransportReceiver {
    /// Every receiver is in a state that the operations below can reach.
    #[verifier::type_invariant]
    spec fn inv(&self) -> bool {
        self@.wf()
    }

    /// A receiver for a connection that was just established: listening,
    /// with no request in flight.
    pub fn new() -> (receiver: Self)
        ensures
            receiver@ == TransportReceiverView::initial(),
            receiver@.wf(),
    {
        let in_flight: Vec<usize> = Vec::new();
        proof {
            in_flight@.to_multiset_ensures();
            assert(in_flight@.to_multiset() =~= Multiset::<usize>::empty());
        }
        TransportReceiver { stage: Stage::Listening, in_flight }
    }

    /// The stage of the receiver.
    pub fn stage(&self) -> (stage: Stage)
        ensures
            stage == self@.stage,
            self@.wf(),
    {
        proof {
            use_type_invariant(self);
        }
        self.stage
    }

    /// The number of requests in flight.
    pub fn in_flight(&self) -> (count: usize)
        ensures
            count == self@.in_flight.len(),
            self@.wf(),
    {
        proof {
            use_type_invariant(self);
        }
        self.in_flight.len()
    }

    /// Takes a request envelope off the source. A listening receiver accepts
    /// it: the request is in flight from now on and comes back for dispatch,
    /// under the envelope's id. A receiver that has stopped listening accepts
    /// nothing: the envelope comes back as it is.
    pub fn on_request<Request>(&mut self, envelope: TranportMesssage<Request>) -> (accepted:
        Result<Dispatch<Request>, TranportMesssage<Request>>)
        ensures
            old(self)@.wf(),
            final(self)@.wf(),
            old(self)@.stage == Stage::Listening ==> {
                &&& accepted == Ok::<Dispatch<Request>, TranportMesssage<Request>>(
                    Dispatch { id: envelope.id, request: envelope.message },
                )
                &&& final(self)@ == old(self)@.accept(envelope.id)
            },
            old(self)@.stage != Stage::Listening ==> {
                &&& accepted == Err::<Dispatch<Request>, TranportMesssage<Request>>(envelope)
                &&& final(self)@ == old(self)@
            },
    {
        proof {
            use_type_invariant(&*self);
        }
        match self.stage {
            Stage::Listening => {
                let mut in_flight: Vec<usize> = Vec::new();
                proof {
                    lemma_nothing_in_flight(in_flight@);
                }
                std::mem::swap(&mut self.in_flight, &mut in_flight);
                in_flight.push(envelope.id);
                self.in_flight = in_flight;
                Ok(Dispatch { id: envelope.id, request: envelope.message })
            },
            _ => Err(envelope),
        }
    }

    /// Takes what a read of the source yielded, as the serving loop does for
    /// as long as it reads. An envelope is taken as
    /// [`on_request`](Self::on_request) takes it. A failed read and the end
    /// of the source both end the listening as
    /// [`stop_listening`](Self::stop_listening) ends it; the requests in
    /// flight are still served.
    pub fn on_source<Request>(&mut self, incoming: Incoming<Request>) -> (intake: Intake<Request>)
        ensures
            old(self)@.wf(),
            final(self)@.wf(),
            match incoming {
                Incoming::Envelope(envelope) => if old(self)@.stage == Stage::Listening {
                    &&& intake == Intake::Serve(
                        Dispatch { id: envelope.id, request: envelope.message },
                    )
                    &&& final(self)@ == old(self)@.accept(envelope.id)
                } else {
                    &&& intake == Intake::Refused(envelope)
                    &&& final(self)@ == old(self)@
                },
                _ => {
                    &&& intake == Intake::<Request>::Finished
                    &&& final(self)@ == old(self)@.stop_listening()
                },
            },
    {
        match incoming {
            Incoming::Envelope(envelope) => match self.on_request(envelope) {
                Ok(dispatch) => Intake::Serve(dispatch),
                Err(envelope) => Intake::Refused(envelope),
            },
            Incoming::Failed => {
                self.stop_listening();
                Intake::Finished
            },
            Incoming::Ended => {
                self.stop_listening();
                Intake::Finished
            },
        }
    }

    /// Takes the answer of the service to one request in flight under `id`
    /// and returns the envelope to write to the sink: the answer, be it a
    /// response or a failure that the service reported, under the request's
    /// own id. The request is no longer in flight, and a draining receiver
    /// that has nothing left in flight stops.
    ///
    /// Requests may be served in any order. Where no request is in flight
    /// under `id`, there is nothing to answer: nothing changes and no
    /// envelope comes back.
    pub fn on_served<Response>(&mut self, id: usize, outcome: Reply<Response>) -> (envelope:
        Option<TranportMesssage<Reply<Response>>>)
        ensures
            old(self)@.wf(),
            final(self)@.wf(),
            final(self)@ == old(self)@.finish(id),
            envelope == old(self)@.reply(id, outcome),
    {
        proof {
            use_type_invariant(&*self);
        }
        let mut i: usize = 0;
        while i < self.in_flight.len()
            invariant
                0 <= i <= self.in_flight@.len(),
                forall|j: int| 0 <= j < i ==> self.in_flight@[j] != id,
            ensures
                0 <= i <= self.in_flight@.len(),
                i < self.in_flight@.len() ==> self.in_flight@[i as int] == id,
                forall|j: int| 0 <= j < i ==> self.in_flight@[j] != id,
            decreases self.in_flight@.len() - i,
        {
            if self.in_flight[i] == id {
                break ;
            }
            i = i + 1;
        }
        if i == self.in_flight.len() {
            proof {
                vstd::seq_lib::to_multiset_contains(self.in_flight@, id);
            }
            return None;
        }
        let mut taken = TransportReceiver::new();
        std::mem::swap(self, &mut taken);
        let TransportReceiver { stage, mut in_flight } = taken;
        let ghost before = in_flight@;
        in_flight.remove(i);
        proof {
            vstd::seq_lib::to_multiset_remove(before, i as int);
            vstd::seq_lib::to_multiset_len(before);
            vstd::seq_lib::to_multiset_len(in_flight@);
            vstd::seq_lib::to_multiset_contains(before, id);
        }
        let stage = if in_flight.len() == 0 {
            match stage {
                Stage::Draining => Stage::Stopped,
                other => other,
            }
        } else {
            stage
        };
        *self = TransportReceiver { stage, in_flight };
        Some(TranportMesssage { id, message: outcome })
    }

    /// Stops listening, because the source has ended or the transport has
    /// failed. A listening receiver goes on to drain the requests in flight,
    /// or stops at once where there are none. Nothing else changes.
    pub fn stop_listening(&mut self)
        ensures
            old(self)@.wf(),
            final(self)@.wf(),
            final(self)@ == old(self)@.stop_listening(),
    {
        proof {
            use_type_invariant(&*self);
        }
        match self.stage {
            Stage::Listening => {
                if self.in_flight.len() == 0 {
                    self.stage = Stage::Stopped;
                } else {
                    self.stage = Stage::Draining;
                }
            },
            _ => {},
        }
    }
}

/// Where no id is listed, nothing is in flight.
proof fn lemma_nothing_in_flight(ids: Seq<usize>)
    requires
        ids.len() == 0,
    ensures
        ids.to_multiset().len() == 0,
{
    vstd::seq_lib::to_multiset_len(ids);
}

/// A failure that the service reports is answered like a response: it goes
/// into the envelope under the request's id, the caller that waits under
/// that id gets it as the service's failure and as nothing else, and both
/// ends of the connection go on as before: the receiver keeps listening and
/// the connector keeps accepting calls.
pub proof fn lemma_service_failure_reaches_caller<W, Response>(
    receiver: TransportReceiverView,
    connector: ConnectorView<W>,
    id: usize,
    failure: ServiceError,
)
    requires
        receiver.wf(),
        receiver.stage == Stage::Listening,
        receiver.in_flight.contains(id),
        connector.wf(),
        connector.phase == Phase::Active,
        connector.pending.contains_key(id),
    ensures
        receiver.reply::<Response>(id, Err(failure)) matches Some(envelope) && {
            &&& envelope.id == id
            &&& envelope.message == Err::<Response, ServiceError>(failure)
            &&& route_response(connector.pending, envelope) == (Delivery::Deliver {
                waiter: connector.pending[id],
                response: Err::<Response, ServiceError>(failure),
            })
            &&& resolved(envelope.message) == Err::<Response, CallError>(
                CallError::Service(failure),
            )
        },
        receiver.finish(id).stage == Stage::Listening,
        receiver.finish(id).wf(),
        connector.settle(id).phase == Phase::Active,
        connector.settle(id).wf(),
{
}

/// A call comes full circle. The request goes out under a fresh id and is
/// accepted under that id; the answer of the service comes back under the
/// same id and is handed to the completion handle of the call; and
/// afterwards both ends hold what they held before the call.
pub proof fn lemma_call_comes_full_circle<W, Request, Response>(
    connector: ConnectorView<W>,
    receiver: TransportReceiverView,
    waiter: W,
    request: Request,
    outcome: Reply<Response>,
)
    requires
        connector.wf(),
        connector.phase == Phase::Active,
        receiver.wf(),
        receiver.stage == Stage::Listening,
    ensures
        ({
            let id = connector.upcoming_id();
            let calling = connector.issue(waiter);
            let serving = receiver.accept(id);
            &&& !connector.pending.contains_key(id)
            &&& serving.reply(id, outcome) == Some(TranportMesssage { id, message: outcome })
            &&& route_response(calling.pending, TranportMesssage { id, message: outcome }) == (
            Delivery::Deliver { waiter, response: outcome })
            &&& calling.settle(id).pending == connector.pending
            &&& calling.settle(id).phase == Phase::Active
            &&& serving.finish(id) == receiver
        }),
{
    let id = connector.upcoming_id();
    crate::transport::connect::lemma_fresh_id_is_free(connector.next_id, connector.pending.dom());
    assert(receiver.accept(id).finish(id).in_flight =~= receiver.in_flight);
}

/// No request waits for another. Of two requests in flight, either may be
/// served first: the one that is served first is answered at once, under its
/// own id, while the other is still in flight, and the other is answered
/// when its turn comes. The order in which requests came in plays no part,
/// and the receiver ends in the same state either way.
pub proof fn lemma_requests_are_served_independently<Response>(
    receiver: TransportReceiverView,
    slow: usize,
    fast: usize,
    slow_outcome: Reply<Response>,
    fast_outcome: Reply<Response>,
)
    requires
        receiver.wf(),
        receiver.stage == Stage::Listening,
    ensures
        ({
            let both = receiver.accept(slow).accept(fast);
            &&& both.reply(fast, fast_outcome) == Some(
                TranportMesssage { id: fast, message: fast_outcome },
            )
            &&& both.finish(fast).in_flight.contains(slow)
            &&& both.finish(fast).reply(slow, slow_outcome) == Some(
                TranportMesssage { id: slow, message: slow_outcome },
            )
            &&& both.finish(fast).finish(slow) == both.finish(slow).finish(fast)
            &&& both.finish(fast).finish(slow) == receiver
        }),
{
    let both = receiver.accept(slow).accept(fast);
    assert(both.finish(fast).finish(slow).in_flight =~= receiver.in_flight);
    assert(both.finish(slow).finish(fast).in_flight =~= receiver.in_flight);
}

/// A receiver only moves forward: from listening to draining to stopped,
/// never back. Whatever happens it stays well formed, and once it has
/// stopped nothing is in flight and nothing is accepted any more.
pub proof fn lemma_stage_only_advances(receiver: TransportReceiverView, events: Seq<Event>)
    requires
        receiver.wf(),
    ensures
        receiver.run(events).wf(),
        receiver.run(events).stage.rank() >= receiver.stage.rank(),
        receiver.stage == Stage::Stopped ==> receiver.run(events) == receiver,
    decreases events.len(),
{
    if events.len() > 0 {
        lemma_stage_only_advances(receiver, events.drop_last());
    }
}

/// A receiver that has stopped listening comes to rest: once every request
/// in flight has been served, it is stopped. A request is answered once for
/// each time it was accepted, and no more.
pub proof fn lemma_draining_ends<Response>(
    receiver: TransportReceiverView,
    id: usize,
    outcome: Reply<Response>,
)
    requires
        receiver.wf(),
        receiver.in_flight.contains(id),
    ensures
        receiver.finish(id).in_flight.len() == receiver.in_flight.len() - 1,
        receiver.finish(id).in_flight.count(id) == receiver.in_flight.count(id) - 1,
        receiver.stage == Stage::Draining && receiver.in_flight.len() == 1 ==> receiver.finish(
            id,
        ).stage == Stage::Stopped,
        receiver.in_flight.count(id) == 1 ==> receiver.finish(id).reply(id, outcome) is None,
{
}

} // verus!
