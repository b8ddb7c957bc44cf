//! The capture handler: every exchange, whatever its method and path, is
//! made into a request, shown to the consumer, and answered with the same
//! empty success.

use crate::request::{valid_method, valid_path, Request, RequestError};
use vstd::prelude::*;
use warp::http::HeaderMap;

verus! {

/// A consumer of captured requests. It observes each request once, and what
/// it does has no part in the answer. Calls may come from several
/// exchanges at once.
pub trait RequestLogger {
    fn log_request(&self, req: &Request);
}

/// The answer to an exchange.
#[derive(Debug)]
pub struct Response {
    pub status: u16,
    pub body: Vec<u8>,
}

/// Whether `response` is the empty success: status 200 and no body.
pub open spec fn is_empty_success(response: Response) -> bool {
    response.status == 200 && response.body@.len() == 0
}

/// The answer that every exchange gets.
pub fn acknowledge() -> (response: Response)
    ensures
        is_empty_success(response),
{
    Response { status: 200, body: Vec::new() }
}

/// Shows `request` to the consumer and then answers. The consumer is called
/// before the answer is made, and the answer is the same whatever it did.
pub fn observe<L: RequestLogger>(logger: &L, request: &Request) -> (response: Response)
    ensures
        is_empty_success(response),
{
    logger.log_request(request);
    acknowledge()
}

/// Handles one exchange: makes the request from the values that the
/// transport delivered, shows it to the consumer, and answers with the empty
/// success. Values that make no request are refused, and the consumer is not
/// called for them.
pub fn capture<L: RequestLogger>(
    logger: &L,
    method: String,
    path: String,
    query: String,
    headers: HeaderMap,
    body: Vec<u8>,
) -> (outcome: Result<Response, RequestError>)
    ensures
        outcome is Ok <==> valid_method(method@) && valid_path(path@),
        outcome matches Ok(response) ==> is_empty_success(response),
        outcome == Err::<Response, RequestError>(RequestError::InvalidMethod) <==> !valid_method(
            method@,
        ),
        outcome == Err::<Response, RequestError>(RequestError::InvalidPath) <==> valid_method(
            method@,
        ) && !valid_path(path@),
{
    match Request::new(method, path, query, headers, body) {
        Ok(request) => Ok(observe(logger, &request)),
        Err(e) => Err(e),
    }
}

} // verus!
