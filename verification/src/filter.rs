//! Route match predicates: boolean combinators over a request, method,
//! header and host checks.
#![allow(non_snake_case)]

use vstd::prelude::*;

use crate::http::spec_lookup;
use crate::http::Method;
use crate::request::HttpRequest;
use crate::request::ReqModel;

verus! {

broadcast use vstd::std_specs::vec::group_vec_axioms;

/// A predicate over a request, as data.  Combinators nest freely.
pub enum FilterExpr {
    Any(AnyFilter),
    All(AllFilter),
    Not(NotFilter),
    Method(MethodFilter),
    Header(HeaderFilter),
    Host(HostFilter),
}

/// Matches if any of the supplied filters matches.
pub struct AnyFilter(pub Vec<FilterExpr>);

/// Matches if all of the supplied filters match.
pub struct AllFilter(pub Vec<FilterExpr>);

/// Matches if the supplied filter does not match.
pub struct NotFilter(pub Box<FilterExpr>);

/// Matches requests with the given HTTP method.
pub struct MethodFilter(pub Method);

/// Matches requests whose first header with the given name has exactly the
/// given value; an absent header never matches.  Names and values compare
/// case-sensitively.
pub struct HeaderFilter(pub String, pub String);

/// Matches requests arriving for the given host name and, optionally,
/// scheme.  Host comparison needs connection metadata that the dispatch
/// core does not see, so this filter never matches.
pub struct HostFilter(pub String, pub Option<String>);

/// What a filter expression says of a request.
pub open spec fn expr_matches(e: FilterExpr, req: ReqModel) -> bool
    decreases e,
{
    match e {
        FilterExpr::Any(f) => exists|i: int| 0 <= i < f.0@.len() && expr_matches(f.0@[i], req),
        FilterExpr::All(f) => forall|i: int| 0 <= i < f.0@.len() ==> expr_matches(f.0@[i], req),
        FilterExpr::Not(f) => !expr_matches(*f.0, req),
        FilterExpr::Method(f) => req.method == f.0,
        FilterExpr::Header(f) => spec_lookup(req.headers, f.0@) == Some(f.1@),
        FilterExpr::Host(_) => false,
    }
}

/// An `Any` expression matches exactly when some member matches.
pub proof fn lemma_any_semantics(f: AnyFilter, req: ReqModel)
    ensures
        expr_matches(FilterExpr::Any(f), req) == (exists|i: int|
            0 <= i < f.0@.len() && expr_matches(#[trigger] f.0@[i], req)),
{
    let e = FilterExpr::Any(f);
    assert(e->Any_0 == f);
    if expr_matches(e, req) {
        assert(exists|i: int| 0 <= i < f.0@.len() && expr_matches(#[trigger] f.0@[i], req));
    }
    if exists|i: int| 0 <= i < f.0@.len() && expr_matches(#[trigger] f.0@[i], req) {
        let i = choose|i: int| 0 <= i < f.0@.len() && expr_matches(#[trigger] f.0@[i], req);
        assert(expr_matches(e, req));
    }
}

/// An `All` expression matches exactly when every member matches.
pub proof fn lemma_all_semantics(f: AllFilter, req: ReqModel)
    ensures
        expr_matches(FilterExpr::All(f), req) == (forall|i: int|
            0 <= i < f.0@.len() ==> expr_matches(#[trigger] f.0@[i], req)),
{
    let e = FilterExpr::All(f);
    assert(e->All_0 == f);
    if expr_matches(e, req) {
        assert forall|i: int|
            0 <= i < f.0@.len() implies expr_matches(#[trigger] f.0@[i], req) by {}
    }
    if forall|i: int| 0 <= i < f.0@.len() ==> expr_matches(#[trigger] f.0@[i], req) {
        assert(expr_matches(e, req));
    }
}

/// A `Not` expression matches exactly when its member does not.
pub proof fn lemma_not_semantics(f: NotFilter, req: ReqModel)
    ensures
        expr_matches(FilterExpr::Not(f), req) == !expr_matches(*f.0, req),
{
}

/// A resource predicate.  `check` decides whether a request matches, and
/// `spec_matches` is the meaning it decides by.
pub trait Filter: Sized {
    /// What this predicate says of a request.
    spec fn spec_matches(&self, req: ReqModel) -> bool;

    /// Whether the request matches this predicate.
    fn check(&self, request: &HttpRequest) -> (r: bool)
        ensures
            r == self.spec_matches(request@),
    ;

    /// This predicate as a filter expression with the same meaning.
    fn into_expr(self) -> (e: FilterExpr)
        ensures
            forall|req: ReqModel| #[trigger] expr_matches(e, req) == self.spec_matches(req),
    ;
}

impl FilterExpr {
    /// Evaluate the expression on a request; combinators short-circuit.
    #[verifier::loop_isolation(false)]
    pub fn eval(&self, request: &HttpRequest) -> (r: bool)
        ensures
            r == expr_matches(*self, request@),
        decreases *self,
    {
        match self {
            FilterExpr::Any(f) => {
                let n = f.0.len();
                for i in 0..n
                    invariant
                        n == f.0.len(),
                        *self == FilterExpr::Any(*f),
                        forall|j: int| 0 <= j < i ==> !expr_matches(f.0@[j], request@),
                {
                    if f.0[i].eval(request) {
                        proof {
                            assert(expr_matches(f.0@[i as int], request@));
                        }
                        return true;
                    }
                }
                false
            },
            FilterExpr::All(f) => {
                let n = f.0.len();
                for i in 0..n
                    invariant
                        n == f.0.len(),
                        *self == FilterExpr::All(*f),
                        forall|j: int| 0 <= j < i ==> expr_matches(f.0@[j], request@),
                {
                    if !f.0[i].eval(request) {
                        proof {
                            assert(!expr_matches(f.0@[i as int], request@));
                        }
                        return false;
                    }
                }
                true
            },
            FilterExpr::Not(f) => !f.0.eval(request),
            FilterExpr::Method(f) => request.method() == f.0,
            FilterExpr::Header(f) => match request.headers().get(f.0.as_str()) {
                Some(v) => crate::strutil::str_eq(v.as_str(), f.1.as_str()),
                None => false,
            },
            FilterExpr::Host(_) => false,
        }
    }
}

impl Filter for FilterExpr {
    open spec fn spec_matches(&self, req: ReqModel) -> bool {
        expr_matches(*self, req)
    }

    fn check(&self, request: &HttpRequest) -> (r: bool) {
        self.eval(request)
    }

    fn into_expr(self) -> (e: FilterExpr) {
        self
    }
}

impl Filter for AnyFilter {
    open spec fn spec_matches(&self, req: ReqModel) -> bool {
        expr_matches(FilterExpr::Any(*self), req)
    }

    #[verifier::loop_isolation(false)]
    fn check(&self, request: &HttpRequest) -> (r: bool) {
        proof {
            lemma_any_semantics(*self, request@);
        }
        let n = self.0.len();
        for i in 0..n
            invariant
                n == self.0.len(),
                forall|j: int| 0 <= j < i ==> !expr_matches(self.0@[j], request@),
        {
            if self.0[i].eval(request) {
                proof {
                    assert(expr_matches(self.0@[i as int], request@));
                }
                return true;
            }
        }
        false
    }

    fn into_expr(self) -> (e: FilterExpr) {
        FilterExpr::Any(self)
    }
}

impl Filter for AllFilter {
    open spec fn spec_matches(&self, req: ReqModel) -> bool {
        expr_matches(FilterExpr::All(*self), req)
    }

    #[verifier::loop_isolation(false)]
    fn check(&self, request: &HttpRequest) -> (r: bool) {
        proof {
            lemma_all_semantics(*self, request@);
        }
        let n = self.0.len();
        for i in 0..n
            invariant
                n == self.0.len(),
                forall|j: int| 0 <= j < i ==> expr_matches(self.0@[j], request@),
        {
            if !self.0[i].eval(request) {
                proof {
                    assert(!expr_matches(self.0@[i as int], request@));
                }
                return false;
            }
        }
        true
    }

    fn into_expr(self) -> (e: FilterExpr) {
        FilterExpr::All(self)
    }
}

impl Filter for NotFilter {
    open spec fn spec_matches(&self, req: ReqModel) -> bool {
        expr_matches(FilterExpr::Not(*self), req)
    }

    fn check(&self, request: &HttpRequest) -> (r: bool) {
        !self.0.eval(request)
    }

    fn into_expr(self) -> (e: FilterExpr) {
        FilterExpr::Not(self)
    }
}

impl Filter for MethodFilter {
    open spec fn spec_matches(&self, req: ReqModel) -> bool {
        req.method == self.0
    }

    fn check(&self, request: &HttpRequest) -> (r: bool) {
        request.method() == self.0
    }

    fn into_expr(self) -> (e: FilterExpr) {
        FilterExpr::Method(self)
    }
}

impl Filter for HeaderFilter {
    open spec fn spec_matches(&self, req: ReqModel) -> bool {
        spec_lookup(req.headers, self.0@) == Some(self.1@)
    }

    fn check(&self, request: &HttpRequest) -> (r: bool) {
        match request.headers().get(self.0.as_str()) {
            Some(v) => crate::strutil::str_eq(v.as_str(), self.1.as_str()),
            None => false,
        }
    }

    fn into_expr(self) -> (e: FilterExpr) {
        FilterExpr::Header(self)
    }
}

impl HostFilter {
    /// Also require the given scheme, once host matching is wired to
    /// connection metadata.
    pub fn scheme(&mut self, scheme: &str)
        ensures
            final(self).0 == old(self).0,
            final(self).1 matches Some(s) && s@ == scheme@,
    {
        self.1 = Some(scheme.to_owned());
    }
}

impl Filter for HostFilter {
    open spec fn spec_matches(&self, req: ReqModel) -> bool {
        false
    }

    fn check(&self, request: &HttpRequest) -> (r: bool) {
        false
    }

    fn into_expr(self) -> (e: FilterExpr) {
        FilterExpr::Host(self)
    }
}

/// Return a filter that matches if any of the supplied filters matches.
pub fn Any<F: Filter>(filter: F) -> (r: AnyFilter)
    ensures
        forall|req: ReqModel| #[trigger] r.spec_matches(req) == filter.spec_matches(req),
{
    let e = filter.into_expr();
    let mut v: Vec<FilterExpr> = Vec::new();
    v.push(e);
    let r = AnyFilter(v);
    proof {
        assert forall|req: ReqModel| #[trigger] r.spec_matches(req) == filter.spec_matches(
            req,
        ) by {
            lemma_any_semantics(r, req);
            assert(r.0@[0] == e);
            if filter.spec_matches(req) {
                assert(expr_matches(r.0@[0], req));
            } else if r.spec_matches(req) {
                let j = choose|j: int|
                    0 <= j < r.0@.len() && expr_matches(#[trigger] r.0@[j], req);
                assert(j == 0);
            }
        }
    }
    r
}

impl AnyFilter {
    /// Add a filter to the list of alternatives.
    pub fn or<F: Filter>(self, filter: F) -> (r: AnyFilter)
        ensures
            forall|req: ReqModel| #[trigger] r.spec_matches(req) == (self.spec_matches(req)
                || filter.spec_matches(req)),
    {
        let ghost before = self;
        let mut this = self;
        let e = filter.into_expr();
        this.0.push(e);
        proof {
            assert forall|req: ReqModel| #[trigger] this.spec_matches(req) == (before.spec_matches(
                req,
            ) || filter.spec_matches(req)) by {
                lemma_any_semantics(this, req);
                lemma_any_semantics(before, req);
                let n = before.0@.len();
                assert(this.0@.len() == n + 1);
                assert(this.0@[n as int] == e);
                assert(forall|j: int| 0 <= j < n ==> this.0@[j] == before.0@[j]);
                if before.spec_matches(req) {
                    let i = choose|i: int|
                        0 <= i < n && expr_matches(#[trigger] before.0@[i], req);
                    assert(expr_matches(this.0@[i], req));
                } else if filter.spec_matches(req) {
                    assert(expr_matches(this.0@[n as int], req));
                } else if this.spec_matches(req) {
                    let i = choose|i: int|
                        0 <= i < n + 1 && expr_matches(#[trigger] this.0@[i], req);
                    if i < n {
                        assert(expr_matches(before.0@[i], req));
                    }
                }
            }
        }
        this
    }
}

/// Return a filter that matches if all of the supplied filters match.
pub fn All<F: Filter>(filter: F) -> (r: AllFilter)
    ensures
        forall|req: ReqModel| #[trigger] r.spec_matches(req) == filter.spec_matches(req),
{
    let e = filter.into_expr();
    let mut v: Vec<FilterExpr> = Vec::new();
    v.push(e);
    let r = AllFilter(v);
    proof {
        assert forall|req: ReqModel| #[trigger] r.spec_matches(req) == filter.spec_matches(
            req,
        ) by {
            lemma_all_semantics(r, req);
            assert(r.0@[0] == e);
            if r.spec_matches(req) {
                assert(expr_matches(r.0@[0], req));
            } else if filter.spec_matches(req) {
                assert forall|i: int|
                    0 <= i < r.0@.len() implies expr_matches(#[trigger] r.0@[i], req) by {
                    assert(i == 0);
                }
            }
        }
    }
    r
}

impl AllFilter {
    /// Add a filter to the list of requirements.
    pub fn and<F: Filter>(self, filter: F) -> (r: AllFilter)
        ensures
            forall|req: ReqModel| #[trigger] r.spec_matches(req) == (self.spec_matches(req)
                && filter.spec_matches(req)),
    {
        let ghost before = self;
        let mut this = self;
        let e = filter.into_expr();
        this.0.push(e);
        proof {
            assert forall|req: ReqModel| #[trigger] this.spec_matches(req) == (before.spec_matches(
                req,
            ) && filter.spec_matches(req)) by {
                lemma_all_semantics(this, req);
                lemma_all_semantics(before, req);
                let n = before.0@.len();
                assert(this.0@.len() == n + 1);
                assert(this.0@[n as int] == e);
                assert(forall|j: int| 0 <= j < n ==> this.0@[j] == before.0@[j]);
                if before.spec_matches(req) && filter.spec_matches(req) {
                    assert forall|i: int|
                        0 <= i < n + 1 implies expr_matches(#[trigger] this.0@[i], req) by {
                        if i < n {
                            assert(expr_matches(before.0@[i], req));
                        }
                    }
                }
                if this.spec_matches(req) {
                    assert forall|i: int|
                        0 <= i < n implies expr_matches(#[trigger] before.0@[i], req) by {
                        assert(expr_matches(this.0@[i], req));
                    }
                    assert(expr_matches(this.0@[n as int], req));
                }
            }
        }
        this
    }
}

/// Return a filter that matches if the supplied filter does not match.
pub fn Not<F: Filter>(filter: F) -> (r: NotFilter)
    ensures
        forall|req: ReqModel| #[trigger] r.spec_matches(req) == !filter.spec_matches(req),
{
    let e = filter.into_expr();
    let r = NotFilter(Box::new(e));
    proof {
        assert forall|req: ReqModel| #[trigger] r.spec_matches(req) == !filter.spec_matches(
            req,
        ) by {
            lemma_not_semantics(r, req);
            assert(*r.0 == e);
        }
    }
    r
}

/// Predicate to match the *GET* HTTP method.
pub fn Get() -> (r: MethodFilter)
    ensures
        r.0 == Method::Get,
{
    MethodFilter(Method::Get)
}

/// Predicate to match the *POST* HTTP method.
pub fn Post() -> (r: MethodFilter)
    ensures
        r.0 == Method::Post,
{
    MethodFilter(Method::Post)
}

/// Predicate to match the *PUT* HTTP method.
pub fn Put() -> (r: MethodFilter)
    ensures
        r.0 == Method::Put,
{
    MethodFilter(Method::Put)
}

/// Predicate to match the *DELETE* HTTP method.
pub fn Delete() -> (r: MethodFilter)
    ensures
        r.0 == Method::Delete,
{
    MethodFilter(Method::Delete)
}

/// Predicate to match the *HEAD* HTTP method.
pub fn Head() -> (r: MethodFilter)
    ensures
        r.0 == Method::Head,
{
    MethodFilter(Method::Head)
}

/// Predicate to match the *OPTIONS* HTTP method.
pub fn Options() -> (r: MethodFilter)
    ensures
        r.0 == Method::Options,
{
    MethodFilter(Method::Options)
}

/// Predicate to match the *CONNECT* HTTP method.
pub fn Connect() -> (r: MethodFilter)
    ensures
        r.0 == Method::Connect,
{
    MethodFilter(Method::Connect)
}

/// Predicate to match the *PATCH* HTTP method.
pub fn Patch() -> (r: MethodFilter)
    ensures
        r.0 == Method::Patch,
{
    MethodFilter(Method::Patch)
}

/// Predicate to match the *TRACE* HTTP method.
pub fn Trace() -> (r: MethodFilter)
    ensures
        r.0 == Method::Trace,
{
    MethodFilter(Method::Trace)
}

/// Predicate to match the specified HTTP method.
pub fn Method(method: Method) -> (r: MethodFilter)
    ensures
        r.0 == method,
{
    MethodFilter(method)
}

/// Return a predicate that matches if the request carries the specified
/// header with exactly the specified value.
pub fn Header(name: &str, value: &str) -> (r: HeaderFilter)
    ensures
        r.0@ == name@,
        r.1@ == value@,
{
    HeaderFilter(name.to_owned(), value.to_owned())
}

/// Return a predicate for the specified host name.  Host matching is not
/// wired to connection metadata, so the predicate never matches.
pub fn Host(host: &str) -> (r: HostFilter)
    ensures
        r.0@ == host@,
        r.1 is None,
{
    HostFilter(host.to_owned(), None)
}

} // verus!
