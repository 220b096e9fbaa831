//! Requests for the transport to send, and what a reply amounts to once the
//! transport has done its part.

use crate::structures::search::Response;
use crate::url_ext::RequestUrl;
use crate::CallError;
use vstd::prelude::*;

verus! {

/// How a request is sent.
#[derive(Debug, Clone, Copy, PartialEq, Eq, Hash)]
pub enum Method {
    /// With `GET`: the reply holds what lies at the URL.
    Get,
}

/// A request for the transport to send.
#[derive(Debug, Clone, PartialEq, Eq)]
pub struct Request {
    /// How to send it.
    pub method: Method,
    /// Where to send it.
    pub url: RequestUrl,
}

impl Request {
    /// The request that fetches `url`.
    pub fn get(url: RequestUrl) -> (request: Request)
        ensures
            request.method is Get,
            request.url == url,
    {
        Request { method: Method::Get, url }
    }
}

/// What became of a request that was handed to the transport.
#[derive(Debug, Clone, PartialEq, Eq)]
pub enum Outcome {
    /// The request could not be sent, or no reply came.
    Failed { reason: String },
    /// A reply came, with this status and this body.
    Replied { status: u16, body: String },
}

/// Whether an HTTP status means success: the statuses from 200 to 299 do.
pub open spec fn is_success(status: u16) -> bool {
    200 <= status <= 299
}

/// What `body_of` returns for each outcome.
pub open spec fn body_of_outcome(outcome: Outcome) -> Result<String, CallError> {
    match outcome {
        Outcome::Failed { reason } => Err(CallError::Transport(reason)),
        Outcome::Replied { status, body } => if is_success(status) {
            Ok(body)
        } else {
            Err(CallError::Api { status, body })
        },
    }
}

/// The body to decode, or why there is none. A failure of the transport is
/// reported as such; a reply whose status does not mean success is reported
/// with its status and its body; the body of any other reply is handed on.
pub fn body_of(outcome: Outcome) -> (r: Result<String, CallError>)
    ensures
        r == body_of_outcome(outcome),
{
    match outcome {
        Outcome::Failed { reason } => Err(CallError::Transport(reason)),
        Outcome::Replied { status, body } => {
            if 200 <= status && status <= 299 {
                Ok(body)
            } else {
                Err(CallError::Api { status, body })
            }
        },
    }
}

/// What `response_of` returns for each result of decoding.
pub open spec fn response_of_decoded(decoded: Result<Response, String>) -> Result<
    Response,
    CallError,
> {
    match decoded {
        Ok(response) => Ok(response),
        Err(reason) => Err(CallError::Deserialization(reason)),
    }
}

/// The result of a search, given what decoding the body of its reply gave:
/// the response as it was decoded, or the reason why the body is none.
pub fn response_of(decoded: Result<Response, String>) -> (r: Result<Response, CallError>)
    ensures
        r == response_of_decoded(decoded),
{
    match decoded {
        Ok(response) => Ok(response),
        Err(reason) => Err(CallError::Deserialization(reason)),
    }
}

} // verus!
