//! HTTP responses, modelled as a status code, a header multi-map and a text
//! body.

use vstd::prelude::*;

use crate::http::spec_lookup;
use crate::http::HeaderMap;

verus! {

/// The mathematical model of a response.
pub ghost struct RespModel {
    pub status: u16,
    pub headers: Seq<(Seq<char>, Seq<char>)>,
    pub body: Seq<char>,
}

/// The model of the response sent when no route matches and no default
/// service is configured.
pub open spec fn not_found_model() -> RespModel {
    RespModel { status: 404, headers: Seq::empty(), body: Seq::empty() }
}

/// An HTTP response.
pub struct Response {
    status: u16,
    headers: HeaderMap,
    body: String,
}

impl View for Response {
    type V = RespModel;

    closed spec fn view(&self) -> RespModel {
        RespModel { status: self.status, headers: self.headers@, body: self.body@ }
    }
}

impl Response {
    /// A response with the given status, no headers and an empty body.
    pub fn new(status: u16) -> (r: Response)
        ensures
            r@ == (RespModel { status, headers: Seq::<(Seq<char>, Seq<char>)>::empty(), body: Seq::<
                char,
            >::empty() }),
    {
        Response { status, headers: HeaderMap::new(), body: String::new() }
    }

    /// An empty response with status 200.
    pub fn ok() -> (r: Response)
        ensures
            r@ == (RespModel { status: 200, headers: Seq::<(Seq<char>, Seq<char>)>::empty(), body:
                Seq::<char>::empty() }),
    {
        Response::new(200)
    }

    /// An empty response with status 404.
    pub fn not_found() -> (r: Response)
        ensures
            r@ == not_found_model(),
    {
        Response::new(404)
    }

    pub fn status(&self) -> (r: u16)
        ensures
            r == self@.status,
    {
        self.status
    }

    pub fn body(&self) -> (r: &String)
        ensures
            r@ == self@.body,
    {
        &self.body
    }

    /// Replace the body.
    pub fn set_body(&mut self, body: String)
        ensures
            final(self)@ == (RespModel { body: body@, ..old(self)@ }),
    {
        self.body = body;
    }

    /// Append a header; entries already present under the same name are kept
    /// and keep shadowing later ones on lookup.
    pub fn append_header(&mut self, name: String, value: String)
        ensures
            final(self)@ == (RespModel {
                headers: old(self)@.headers.push((name@, value@)),
                ..old(self)@
            }),
    {
        self.headers.append(name, value);
    }

    /// The value of the first header named `name`, if any.
    pub fn get_header(&self, name: &str) -> (r: Option<&String>)
        ensures
            match r {
                Some(v) => spec_lookup(self@.headers, name@) == Some(v@),
                None => spec_lookup(self@.headers, name@) is None,
            },
    {
        self.headers.get(name)
    }

    /// Whether some header is named `name`.
    pub fn has_header(&self, name: &str) -> (r: bool)
        ensures
            r == (spec_lookup(self@.headers, name@) is Some),
    {
        self.headers.contains_key(name)
    }
}

} // verus!
