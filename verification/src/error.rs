//! The failures a call can end in.

use vstd::prelude::*;

verus! {

/// An application-level failure reported by a service, with the chain of
/// causes behind it.
///
/// It travels to the caller in place of a response, so it holds nothing but
/// text: the description of the failure and, nested, the error that caused
/// it.
#[derive(Debug)]
pub struct ServiceError {
    description: String,
    source: Option<Box<ServiceError>>,
}

impl View for ServiceError {
    type V = Seq<Seq<char>>;

    /// The descriptions along the chain of causes, the failure itself first.
    closed spec fn view(&self) -> Seq<Seq<char>> {
        self.chain()
    }
}

impl ServiceError {
    spec fn chain(&self) -> Seq<Seq<char>>
        decreases self,
    {
        match self.source {
            Some(cause) => seq![self.description@] + cause.chain(),
            None => seq![self.description@],
        }
    }

    /// An error described by `description` and caused by `source`.
    pub fn new(description: String, source: Option<ServiceError>) -> (error: ServiceError)
        ensures
            error@ == seq![description@] + match source {
                Some(cause) => cause@,
                None => Seq::empty(),
            },
    {
        match source {
            Some(cause) => ServiceError { description, source: Some(Box::new(cause)) },
            None => {
                ServiceError { description, source: None }
            },
        }
    }

    /// The error whose chain of causes reads `descriptions`, the failure
    /// itself first. An empty chain describes no error.
    pub fn from_chain(descriptions: Vec<String>) -> (error: Option<ServiceError>)
        ensures
            descriptions@.len() == 0 <==> error is None,
            error matches Some(e) ==> e@ == descriptions@.map_values(|d: String| d@),
    {
        let mut rest = descriptions;
        let mut error: Option<ServiceError> = None;
        let ghost all = rest@.map_values(|d: String| d@);
        while rest.len() > 0
            invariant
                rest@.len() <= all.len(),
                rest@.map_values(|d: String| d@) =~= all.take(rest@.len() as int),
                rest@.len() == all.len() <==> error is None,
                error matches Some(e) ==> e@ =~= all.skip(rest@.len() as int),
            decreases rest@.len(),
        {
            let ghost before = rest@;
            let description = rest.pop().unwrap();
            proof {
                let n = rest@.len() as int;
                assert(before.map_values(|d: String| d@)[n] == description@);
            }
            error = Some(ServiceError::new(description, error));
        }
        error
    }

    /// The description of the failure itself.
    pub fn description(&self) -> (text: &str)
        ensures
            text@ == self@[0],
    {
        self.description.as_str()
    }

    /// The error that caused this one, if a cause was recorded.
    pub fn source(&self) -> (cause: Option<&ServiceError>)
        ensures
            self@.len() == 1 <==> cause is None,
            cause matches Some(c) ==> c@ == self@.skip(1),
    {
        match &self.source {
            Some(cause) => {
                proof {
                    self.lemma_chain_not_empty();
                    cause.lemma_chain_not_empty();
                }
                Some(&**cause)
            },
            None => None,
        }
    }

    /// How the error shows itself to a reader: by its description alone.
    pub fn message(&self) -> (text: String)
        ensures
            text@ == self@[0],
    {
        self.description.clone()
    }

    /// A chain of causes starts with the failure itself, so it is never
    /// empty.
    pub proof fn lemma_chain_not_empty(&self)
        ensures
            self@.len() >= 1,
        decreases self,
    {
        match self.source {
            Some(cause) => {
                cause.lemma_chain_not_empty();
            },
            None => {},
        }
    }
}

/// Why a call did not end in a response.
#[derive(Debug)]
pub enum CallError {
    /// The request could not be written to the transport.
    Transport,
    /// The connection ended before the response arrived.
    ConnectionClosed,
    /// The service received the request and answered with a failure.
    Service(ServiceError),
    /// The response belongs to another operation than the request: the two
    /// ends disagree about the routing. This is a fault in a program, not in
    /// its input.
    Mismatch,
}

/// A service's answer as it travels in a response envelope: the response, or
/// the failure that the service reported.
pub type Reply<Response> = Result<Response, ServiceError>;

/// What the caller gets for `reply`: the response as it is, and the
/// service's failure as the error of the call.
pub open spec fn resolved<Response>(reply: Reply<Response>) -> Result<Response, CallError> {
    match reply {
        Ok(response) => Ok(response),
        Err(error) => Err(CallError::Service(error)),
    }
}

/// Turns the reply that arrived for a call into the call's result. A failure
/// that the service reported stays what it is: it does not turn into a
/// failure of the transport.
pub fn resolve<Response>(reply: Reply<Response>) -> (outcome: Result<Response, CallError>)
    ensures
        outcome == resolved(reply),
{
    match reply {
        Ok(response) => Ok(response),
        Err(error) => Err(CallError::Service(error)),
    }
}

} // verus!
