//! A service that is made when it is first asked for.
//!
//! A service behind a connection need not exist before a request for it
//! arrives. The first request has it made; the requests that arrive while it
//! is being made wait; and once it is there it stays and is never made again.
//! Where making it fails, nothing is kept: the next request has it made
//! anew.

use vstd::prelude::*;

verus! {

/// What a request finds when it asks for the service.
#[derive(Clone, Copy, Debug, PartialEq, Eq, Structural)]
pub enum Claim {
    /// The service is there and can be used.
    Ready,
    /// The service is not there, and this request is the one that has it
    /// made. The outcome is reported with [`LazyService::made`].
    Make,
    /// The service is being made on behalf of another request. This request
    /// waits and asks again afterwards.
    Wait,
}

/// The place of a service that is made on first use.
#[derive(Debug)]
pub enum LazyService<S> {
    /// No service has been made, and none is being made.
    Empty,
    /// The service is being made.
    Making,
    /// The service has been made.
    Made(S),
}

impl<S> LazyService<S> {
    /// What a request that asks in this state is told.
    pub open spec fn claim(self) -> Claim {
        match self {
            LazyService::Empty => Claim::Make,
            LazyService::Making => Claim::Wait,
            LazyService::Made(_) => Claim::Ready,
        }
    }

    /// The state after a request asked: a request that found the place empty
    /// has taken on the making.
    pub open spec fn claimed(self) -> Self {
        match self {
            LazyService::Empty => LazyService::Making,
            _ => self,
        }
    }

    /// The state after the making ended with `outcome`. A failure leaves the
    /// place empty.
    pub open spec fn settled<E>(self, outcome: Result<S, E>) -> Self {
        match (self, outcome) {
            (LazyService::Making, Ok(service)) => LazyService::Made(service),
            (LazyService::Making, Err(_)) => LazyService::Empty,
            _ => self,
        }
    }

    /// A place in which no service has been made yet.
    pub fn new() -> (place: Self)
        ensures
            place == LazyService::<S>::Empty,
    {
        LazyService::Empty
    }

    /// Asks for the service on behalf of a request. Exactly one of the
    /// requests that find no service is told to make it; the others are told
    /// to wait until the making has ended.
    pub fn acquire(&mut self) -> (claim: Claim)
        ensures
            claim == old(self).claim(),
            *final(self) == old(self).claimed(),
    {
        let claim = match self {
            LazyService::Empty => Claim::Make,
            LazyService::Making => Claim::Wait,
            LazyService::Made(_) => Claim::Ready,
        };
        match claim {
            Claim::Make => {
                *self = LazyService::Making;
            },
            _ => {},
        }
        claim
    }

    /// Reports how the making ended. A service that was made is kept from
    /// now on. A failure comes back to be reported to the requests that
    /// waited, and the place is empty again, so that the next request has the
    /// service made anew.
    ///
    /// A report that nobody was asked for changes nothing: what was made
    /// without being asked for comes back.
    pub fn made<E>(&mut self, outcome: Result<S, E>) -> (rejected: Option<Result<S, E>>)
        ensures
            *final(self) == old(self).settled(outcome),
            rejected == match (*old(self), outcome) {
                (LazyService::Making, Ok(_)) => None,
                _ => Some(outcome),
            },
    {
        match self {
            LazyService::Making => match outcome {
                Ok(service) => {
                    *self = LazyService::Made(service);
                    None
                },
                Err(failure) => {
                    *self = LazyService::Empty;
                    Some(Err(failure))
                },
            },
            _ => Some(outcome),
        }
    }

    /// The service, once it has been made.
    pub fn get(&self) -> (service: Option<&S>)
        ensures
            service == match *self {
                LazyService::Made(made) => Some(&made),
                _ => None,
            },
    {
        match self {
            LazyService::Made(service) => Some(service),
            _ => None,
        }
    }
}

/// A service is made at most once at a time and, once made, never again:
/// while it is being made every further request waits, and once it is there
/// every request uses it and a late report cannot replace it.
pub proof fn lemma_made_once<S, E>(place: LazyService<S>, late: Result<S, E>)
    ensures
        place.claim() == Claim::Make ==> place.claimed().claim() == Claim::Wait,
        place.claimed().claim() != Claim::Make,
        place is Made ==> place.claimed() == place && place.settled(late) == place,
{
}

/// A failed making is not kept: the next request has the service made
/// anew.
pub proof fn lemma_failure_is_retried<S, E>(place: LazyService<S>, failure: E)
    requires
        place is Making,
    ensures
        place.settled(Err::<S, E>(failure)).claim() == Claim::Make,
{
}

} // verus!
