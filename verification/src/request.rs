//! HTTP requests and matched path parameters, modelled as plain values.

use vstd::prelude::*;

use crate::http::spec_lookup;
use crate::http::HeaderMap;
use crate::http::Method;
use crate::strutil;

verus! {

/// The mapping from path-template placeholder names to matched path
/// segments, in declaration order.
pub struct Params {
    items: Vec<(String, String)>,
}

impl View for Params {
    type V = Seq<(Seq<char>, Seq<char>)>;

    closed spec fn view(&self) -> Seq<(Seq<char>, Seq<char>)> {
        self.items.deep_view()
    }
}

impl Params {
    pub fn new() -> (r: Params)
        ensures
            r@ == Seq::<(Seq<char>, Seq<char>)>::empty(),
    {
        Params { items: Vec::new() }
    }

    pub fn len(&self) -> (r: usize)
        ensures
            r == self@.len(),
    {
        self.items.len()
    }

    /// Append a parameter.
    pub fn push(&mut self, name: String, value: String)
        ensures
            final(self)@ == old(self)@.push((name@, value@)),
    {
        let ghost before = self@;
        self.items.push((name, value));
        proof {
            assert(self@ =~= before.push(self.items@.last().deep_view()));
        }
    }

    /// The value of the first parameter named `name`, if any.
    pub fn get(&self, name: &str) -> (r: Option<&String>)
        ensures
            match r {
                Some(v) => spec_lookup(self@, name@) == Some(v@),
                None => spec_lookup(self@, name@) is None,
            },
    {
        let n = self.items.len();
        proof {
            assert(self@.skip(0) =~= self@);
        }
        for i in 0..n
            invariant
                n == self.items.len(),
                spec_lookup(self@, name@) == spec_lookup(self@.skip(i as int), name@),
        {
            proof {
                assert(self@.skip(i as int).drop_first() =~= self@.skip(i as int + 1));
                assert(self@.skip(i as int)[0] == self.items@[i as int].deep_view());
            }
            if strutil::str_eq(self.items[i].0.as_str(), name) {
                return Some(&self.items[i].1);
            }
        }
        proof {
            assert(self@.skip(n as int) =~= Seq::<(Seq<char>, Seq<char>)>::empty());
        }
        None
    }

    /// The value at position `i`, if any.
    pub fn value_at(&self, i: usize) -> (r: Option<&String>)
        ensures
            match r {
                Some(v) => i < self@.len() && v@ == self@[i as int].1,
                None => i >= self@.len(),
            },
    {
        if i < self.items.len() {
            proof {
                assert(self@[i as int] == self.items@[i as int].deep_view());
            }
            Some(&self.items[i].1)
        } else {
            None
        }
    }

    /// All parameter values, in declaration order.
    pub fn values(&self) -> (r: Vec<String>)
        ensures
            r.deep_view() =~= self@.map_values(|p: (Seq<char>, Seq<char>)| p.1),
    {
        let n = self.items.len();
        let mut r: Vec<String> = Vec::new();
        for i in 0..n
            invariant
                n == self.items.len(),
                r.deep_view() =~= self@.take(i as int).map_values(
                    |p: (Seq<char>, Seq<char>)| p.1,
                ),
        {
            r.push(self.items[i].1.clone());
            proof {
                assert(self@.take(i as int + 1).map_values(|p: (Seq<char>, Seq<char>)| p.1)
                    =~= self@.take(i as int).map_values(|p: (Seq<char>, Seq<char>)| p.1).push(
                    self@[i as int].1,
                ));
                assert(self@[i as int] == self.items@[i as int].deep_view());
            }
        }
        proof {
            assert(self@.take(n as int) =~= self@);
        }
        r
    }
}

/// The mathematical model of a request.
pub ghost struct ReqModel {
    pub method: Method,
    pub path: Seq<char>,
    pub query: Seq<char>,
    pub headers: Seq<(Seq<char>, Seq<char>)>,
    pub body: Seq<u8>,
    pub params: Seq<(Seq<char>, Seq<char>)>,
}

/// An HTTP request as the dispatch core sees it: already decoded method,
/// path, query string, headers and collected body bytes, plus the path
/// parameters a matching pattern attached.
pub struct HttpRequest {
    method: Method,
    path: String,
    query: String,
    headers: HeaderMap,
    body: Vec<u8>,
    params: Params,
}

impl View for HttpRequest {
    type V = ReqModel;

    closed spec fn view(&self) -> ReqModel {
        ReqModel {
            method: self.method,
            path: self.path@,
            query: self.query@,
            headers: self.headers@,
            body: self.body@,
            params: self.params@,
        }
    }
}

impl HttpRequest {
    /// A request with the given method, path and query string, and no
    /// headers, body or parameters yet.
    pub fn new(method: Method, path: String, query: String) -> (r: HttpRequest)
        ensures
            r@ == (ReqModel {
                method,
                path: path@,
                query: query@,
                headers: Seq::<(Seq<char>, Seq<char>)>::empty(),
                body: Seq::<u8>::empty(),
                params: Seq::<(Seq<char>, Seq<char>)>::empty(),
            }),
    {
        HttpRequest {
            method,
            path,
            query,
            headers: HeaderMap::new(),
            body: Vec::new(),
            params: Params::new(),
        }
    }

    /// A request built from a request target: the path runs up to the first
    /// `?`, the query string is what follows it.
    pub fn with_uri(method: Method, uri: &str) -> (r: HttpRequest)
        ensures
            r@.method == method,
            r@.headers == Seq::<(Seq<char>, Seq<char>)>::empty(),
            r@.body == Seq::<u8>::empty(),
            r@.params == Seq::<(Seq<char>, Seq<char>)>::empty(),
            match strutil::spec_find(uri@, '?') {
                None => r@.path == uri@ && r@.query == Seq::<char>::empty(),
                Some(i) => r@.path == uri@.subrange(0, i) && r@.query == uri@.subrange(
                    i + 1,
                    uri@.len() as int,
                ),
            },
    {
        proof {
            strutil::lemma_find_first(uri@, '?');
        }
        match strutil::find_char(uri, '?') {
            None => HttpRequest::new(method, uri.to_owned(), String::new()),
            Some(i) => {
                let n = uri.unicode_len();
                let path = uri.substring_char(0, i).to_owned();
                let query = uri.substring_char(i + 1, n).to_owned();
                HttpRequest::new(method, path, query)
            },
        }
    }

    pub fn method(&self) -> (r: Method)
        ensures
            r == self@.method,
    {
        self.method
    }

    pub fn path(&self) -> (r: &String)
        ensures
            r@ == self@.path,
    {
        &self.path
    }

    pub fn query_string(&self) -> (r: &String)
        ensures
            r@ == self@.query,
    {
        &self.query
    }

    pub fn headers(&self) -> (r: &HeaderMap)
        ensures
            r@ == self@.headers,
    {
        &self.headers
    }

    pub fn body(&self) -> (r: &Vec<u8>)
        ensures
            r@ == self@.body,
    {
        &self.body
    }

    /// The parameters a matching path pattern attached.
    pub fn match_info(&self) -> (r: &Params)
        ensures
            r@ == self@.params,
    {
        &self.params
    }

    /// Append a header.
    pub fn append_header(&mut self, name: String, value: String)
        ensures
            final(self)@ == (ReqModel {
                headers: old(self)@.headers.push((name@, value@)),
                ..old(self)@
            }),
    {
        self.headers.append(name, value);
    }

    /// Replace the body bytes.
    pub fn set_body(&mut self, body: Vec<u8>)
        ensures
            final(self)@ == (ReqModel { body: body@, ..old(self)@ }),
    {
        self.body = body;
    }

    /// Attach matched path parameters; they stay attached for the remainder
    /// of the request's handling.
    pub fn set_params(&mut self, params: Params)
        ensures
            final(self)@ == (ReqModel { params: params@, ..old(self)@ }),
    {
        self.params = params;
    }
}

} // verus!
