//! Services, and the routing of requests to them.
//!
//! A service answers requests. A request knows which operation of which
//! service it asks for: dispatching it calls that operation and wraps what
//! comes back as the response to that operation. Several services can stand
//! behind one connection. Their requests travel as the variants of one
//! tagged union, and so do their responses: a request of one variant is
//! answered by a response of the same variant.

use vstd::prelude::*;

use crate::error::{CallError, Reply, ServiceError};
use crate::transport::message::TranportMesssage;

verus! {

/// Something that answers requests.
///
/// A service is shared by all the requests that are served at one time, so
/// serving takes it by shared reference. A failure that it reports is an
/// answer, not a failure of the transport.
pub trait Service {
    type Request;

    type Response;

    /// Answers `request`.
    fn serve(&self, request: Self::Request) -> Reply<Self::Response>;
}

/// A request that can be carried out against a service of type `S`, with a
/// response of type `Response`.
pub trait Dispatcher<S, Response>: Sized {
    /// Calls the operation of `service` that the request asks for and
    /// returns its answer as the response to that operation.
    fn dispatch(self, service: &S) -> Reply<Response>;
}

/// The payload of a connection that two services share: a request to, or a
/// response from, the one or the other.
#[derive(Debug)]
pub enum Either<L, R> {
    Left(L),
    Right(R),
}

/// Which of the two services a payload belongs to.
#[derive(Clone, Copy, Debug, PartialEq, Eq, Structural)]
pub enum Side {
    Left,
    Right,
}

impl<L, R> Either<L, R> {
    /// The service that the payload belongs to.
    pub open spec fn spec_side(&self) -> Side {
        match *self {
            Either::Left(_) => Side::Left,
            Either::Right(_) => Side::Right,
        }
    }

    /// The service that the payload belongs to.
    #[verifier::when_used_as_spec(spec_side)]
    pub fn side(&self) -> (side: Side)
        ensures
            side == self.spec_side(),
    {
        match self {
            Either::Left(_) => Side::Left,
            Either::Right(_) => Side::Right,
        }
    }

    /// Takes a response of the left service out of the union. A response of
    /// the right service in its place means that the two ends disagree about
    /// the routing; it is never passed off as something else.
    pub fn into_left(self) -> (response: Result<L, CallError>)
        ensures
            response == left_of(self),
    {
        match self {
            Either::Left(response) => Ok(response),
            Either::Right(_) => Err(CallError::Mismatch),
        }
    }

    /// Takes a response of the right service out of the union. A response
    /// of the left service in its place means that the two ends disagree
    /// about the routing; it is never passed off as something else.
    pub fn into_right(self) -> (response: Result<R, CallError>)
        ensures
            response == right_of(self),
    {
        match self {
            Either::Left(_) => Err(CallError::Mismatch),
            Either::Right(response) => Ok(response),
        }
    }
}

/// The response of the left service that `response` holds, or the mismatch
/// that it is.
pub open spec fn left_of<L, R>(response: Either<L, R>) -> Result<L, CallError> {
    match response {
        Either::Left(inner) => Ok(inner),
        Either::Right(_) => Err(CallError::Mismatch),
    }
}

/// The response of the right service that `response` holds, or the mismatch
/// that it is.
pub open spec fn right_of<L, R>(response: Either<L, R>) -> Result<R, CallError> {
    match response {
        Either::Left(_) => Err(CallError::Mismatch),
        Either::Right(inner) => Ok(inner),
    }
}

/// The answer of the left service as an answer of the pair.
pub open spec fn wrapped_left<L, R>(reply: Reply<L>) -> Reply<Either<L, R>> {
    match reply {
        Ok(response) => Ok(Either::Left(response)),
        Err(failure) => Err(failure),
    }
}

/// The answer of the right service as an answer of the pair.
pub open spec fn wrapped_right<L, R>(reply: Reply<R>) -> Reply<Either<L, R>> {
    match reply {
        Ok(response) => Ok(Either::Right(response)),
        Err(failure) => Err(failure),
    }
}

/// Wraps the answer of the left service as an answer of the pair: a
/// response goes under the left variant, a failure stays as it is.
pub fn wrap_left<L, R>(reply: Reply<L>) -> (wrapped: Reply<Either<L, R>>)
    ensures
        wrapped == wrapped_left::<L, R>(reply),
{
    match reply {
        Ok(response) => Ok(Either::Left(response)),
        Err(failure) => Err(failure),
    }
}

/// Wraps the answer of the right service as an answer of the pair: a
/// response goes under the right variant, a failure stays as it is.
pub fn wrap_right<L, R>(reply: Reply<R>) -> (wrapped: Reply<Either<L, R>>)
    ensures
        wrapped == wrapped_right::<L, R>(reply),
{
    match reply {
        Ok(response) => Ok(Either::Right(response)),
        Err(failure) => Err(failure),
    }
}

/// Two services behind one connection.
#[derive(Debug)]
pub struct Router<A, B> {
    pub left: A,
    pub right: B,
}

impl<A, B, SA, SB, RA, RB> Dispatcher<Router<SA, SB>, Either<RA, RB>> for Either<A, B> where
    A: Dispatcher<SA, RA>,
    B: Dispatcher<SB, RB>,
 {
    /// Hands the request to the service it belongs to, through that
    /// service's own dispatch, and wraps the answer under the same variant. A
    /// response therefore always belongs to the service that the request
    /// went to.
    fn dispatch(self, service: &Router<SA, SB>) -> (reply: Reply<Either<RA, RB>>)
        ensures
            reply matches Ok(response) ==> response.spec_side() == self.spec_side(),
            match self {
                Either::Left(request) => exists|inner: Reply<RA>|
                    call_ensures(A::dispatch, (request, &service.left), inner) && reply
                        == wrapped_left::<RA, RB>(inner),
                Either::Right(request) => exists|inner: Reply<RB>|
                    call_ensures(B::dispatch, (request, &service.right), inner) && reply
                        == wrapped_right::<RA, RB>(inner),
            },
    {
        match self {
            Either::Left(request) => wrap_left(request.dispatch(&service.left)),
            Either::Right(request) => wrap_right(request.dispatch(&service.right)),
        }
    }
}

impl<A, B> Service for Router<A, B> where A: Service, B: Service {
    type Request = Either<A::Request, B::Request>;

    type Response = Either<A::Response, B::Response>;

    /// Hands the request to the service it belongs to and wraps the answer
    /// under the same variant.
    fn serve(&self, request: Either<A::Request, B::Request>) -> (reply: Reply<
        Either<A::Response, B::Response>,
    >)
        ensures
            reply matches Ok(response) ==> response.spec_side() == request.spec_side(),
            match request {
                Either::Left(inner) => exists|answer: Reply<A::Response>|
                    call_ensures(A::serve, (&self.left, inner), answer) && reply == wrapped_left::<
                        A::Response,
                        B::Response,
                    >(answer),
                Either::Right(inner) => exists|answer: Reply<B::Response>|
                    call_ensures(B::serve, (&self.right, inner), answer) && reply
                        == wrapped_right::<A::Response, B::Response>(answer),
            },
    {
        match request {
            Either::Left(inner) => wrap_left(self.left.serve(inner)),
            Either::Right(inner) => wrap_right(self.right.serve(inner)),
        }
    }
}

/// Has `service` answer the request in `envelope` and puts the answer, be it
/// a response or a failure, into an envelope under the same id.
pub fn serve<S>(service: &S, envelope: TranportMesssage<S::Request>) -> (reply: TranportMesssage<
    Reply<S::Response>,
>) where S: Service
    ensures
        reply.id == envelope.id,
        call_ensures(S::serve, (service, envelope.message), reply.message),
{
    let id: usize = envelope.id;
    TranportMesssage { id, message: service.serve(envelope.message) }
}

/// Carries out the request in `envelope` against `service` and puts the
/// answer, be it a response or a failure, into an envelope under the same
/// id.
pub fn answer<D, S, Response>(envelope: TranportMesssage<D>, service: &S) -> (reply:
    TranportMesssage<Reply<Response>>) where D: Dispatcher<S, Response>
    ensures
        reply.id == envelope.id,
        call_ensures(D::dispatch, (envelope.message, service), reply.message),
{
    let id: usize = envelope.id;
    TranportMesssage { id, message: envelope.message.dispatch(service) }
}

/// What a request of a pair of services is answered with, where `left` and
/// `right` say how the two services answer.
pub open spec fn routed<A, B, RA, RB>(
    request: Either<A, B>,
    left: spec_fn(A) -> Reply<RA>,
    right: spec_fn(B) -> Reply<RB>,
) -> Reply<Either<RA, RB>> {
    match request {
        Either::Left(inner) => wrapped_left(left(inner)),
        Either::Right(inner) => wrapped_right(right(inner)),
    }
}

/// Routing keeps requests and responses together: the response to a request
/// belongs to the service that the request went to, and the caller that
/// sent the request to that service gets the response out of the union
/// unchanged. A failure of the service comes back as that failure.
pub proof fn lemma_response_matches_request<A, B, RA, RB>(
    request: Either<A, B>,
    left: spec_fn(A) -> Reply<RA>,
    right: spec_fn(B) -> Reply<RB>,
)
    ensures
        match request {
            Either::Left(inner) => match left(inner) {
                Ok(response) => routed(request, left, right) matches Ok(wrapped) && left_of(wrapped)
                    == Ok::<RA, CallError>(response) && right_of(wrapped) == Err::<RB, CallError>(
                    CallError::Mismatch,
                ),
                Err(failure) => routed(request, left, right) == Err::<
                    Either<RA, RB>,
                    ServiceError,
                >(failure),
            },
            Either::Right(inner) => match right(inner) {
                Ok(response) => routed(request, left, right) matches Ok(wrapped) && right_of(
                    wrapped,
                ) == Ok::<RB, CallError>(response) && left_of(wrapped) == Err::<RA, CallError>(
                    CallError::Mismatch,
                ),
                Err(failure) => routed(request, left, right) == Err::<
                    Either<RA, RB>,
                    ServiceError,
                >(failure),
            },
        },
{
}

/// A codec that gives back what was put into it is invisible to the
/// dispatch: whatever dispatching a request against a service can return, it
/// can return for the request that was encoded and decoded again, and
/// nothing else.
pub proof fn lemma_codec_is_transparent<D, S, Response>(
    encode: spec_fn(D) -> Seq<u8>,
    decode: spec_fn(Seq<u8>) -> Option<D>,
    request: D,
    service: &S,
    reply: Reply<Response>,
) where D: Dispatcher<S, Response>
    requires
        forall|r: D| #[trigger] decode(encode(r)) == Some(r),
    ensures
        decode(encode(request)) matches Some(decoded) && (call_ensures(
            D::dispatch,
            (decoded, service),
            reply,
        ) <==> call_ensures(D::dispatch, (request, service), reply)),
{
}

} // verus!
