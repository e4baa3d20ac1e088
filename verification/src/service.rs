//! The service abstraction: something that consumes a request and
//! eventually produces a response, and the handler contract routes are
//! built from.

use vstd::prelude::*;

use crate::error::ErrModel;
use crate::error::Error;
use crate::request::HttpRequest;
use crate::request::ReqModel;
use crate::response::RespModel;
use crate::response::Response;

verus! {

/// An HTTP service: reports readiness and turns a request into a response.
/// `spec_response` is the response it is bound to give; callers hold `call`
/// until `poll_ready` reports readiness (cooperative backpressure, not
/// enforced by the contract).
pub trait HttpService {
    /// The response this service gives to a request.
    spec fn spec_response(&self, req: ReqModel) -> RespModel;

    /// Whether the service can accept a request now.
    spec fn spec_ready(&self) -> bool;

    /// Report readiness; no side effects.
    fn poll_ready(&self) -> (r: bool)
        ensures
            r == self.spec_ready(),
    ;

    /// Handle a request.
    fn call(&self, req: HttpRequest) -> (r: Response)
        ensures
            r@ == self.spec_response(req@),
    ;
}

/// A route's handler: computes a response from the request — path
/// parameters attached — or fails with an error value that the boundary
/// renders as a response.  `spec_handle` is the outcome it is bound to
/// give.
pub trait Handler: Sized {
    /// The outcome this handler gives to a request.
    spec fn spec_handle(&self, req: ReqModel) -> Result<RespModel, ErrModel>;

    /// Handle the request.
    fn handle(&self, req: &HttpRequest) -> (r: Result<Response, Error>)
        ensures
            match (r, self.spec_handle(req@)) {
                (Ok(resp), Ok(m)) => resp@ == m,
                (Err(e), Err(m)) => e@ == m,
                _ => false,
            },
    ;
}

/// A handler that answers every request with a fixed status and text body.
pub struct TextHandler {
    pub status: u16,
    pub body: String,
}

impl TextHandler {
    pub fn new(status: u16, body: String) -> (r: TextHandler)
        ensures
            r.status == status,
            r.body@ == body@,
    {
        TextHandler { status, body }
    }
}

impl Handler for TextHandler {
    open spec fn spec_handle(&self, req: ReqModel) -> Result<RespModel, ErrModel> {
        Ok(RespModel { status: self.status, headers: Seq::empty(), body: self.body@ })
    }

    fn handle(&self, req: &HttpRequest) -> (r: Result<Response, Error>) {
        let mut resp = Response::new(self.status);
        resp.set_body(self.body.clone());
        Ok(resp)
    }
}

/// A handler that fails every request with a fixed error.
pub struct FailingHandler {
    pub status: u16,
    pub message: String,
}

impl FailingHandler {
    pub fn new(status: u16, message: String) -> (r: FailingHandler)
        ensures
            r.status == status,
            r.message@ == message@,
    {
        FailingHandler { status, message }
    }
}

impl Handler for FailingHandler {
    open spec fn spec_handle(&self, req: ReqModel) -> Result<RespModel, ErrModel> {
        Err(ErrModel { status: self.status, message: self.message@ })
    }

    fn handle(&self, req: &HttpRequest) -> (r: Result<Response, Error>) {
        Err(Error::new(self.status, self.message.clone()))
    }
}

} // verus!
