//! One predicate-guarded handler unit: configured through a builder,
//! compiled into a per-worker route service, and asked `check` then `call`
//! at request time.

use vstd::prelude::*;

use crate::error::Error;
use crate::filter::expr_matches;
use crate::filter::Filter;
use crate::filter::FilterExpr;
use crate::http::Method;
use crate::pattern::spec_pattern_matches;
use crate::pattern::spec_pattern_params;
use crate::pattern::ResourcePattern;
use crate::request::HttpRequest;
use crate::request::ReqModel;
use crate::response::Response;
use crate::service::Handler;

verus! {

/// Whether a method list allows a method: an empty list allows any.
pub open spec fn spec_allows_method(methods: Seq<Method>, m: Method) -> bool {
    methods.len() == 0 || methods.contains(m)
}

/// Whether every filter of a list matches the request.
pub open spec fn spec_filters_match(filters: Seq<FilterExpr>, req: ReqModel) -> bool {
    forall|i: int| 0 <= i < filters.len() ==> expr_matches(#[trigger] filters[i], req)
}

/// A route under construction: allowed methods, filters and a path
/// pattern, but no handler yet.  Construction is infallible.
pub struct RouteBuilder {
    pub methods: Vec<Method>,
    pub filters: Vec<FilterExpr>,
    pub pattern: Option<ResourcePattern>,
}

impl RouteBuilder {
    /// A route accepting anything, with no handler yet.
    pub fn new() -> (r: RouteBuilder)
        ensures
            r.methods@ =~= Seq::<Method>::empty(),
            r.filters@ =~= Seq::<FilterExpr>::empty(),
            r.pattern is None,
    {
        RouteBuilder { methods: Vec::new(), filters: Vec::new(), pattern: None }
    }

    /// Allow one more method; while none is registered, any method passes.
    pub fn method(self, method: Method) -> (r: RouteBuilder)
        ensures
            r.methods@ == self.methods@.push(method),
            r.filters == self.filters,
            r.pattern == self.pattern,
    {
        let mut this = self;
        this.methods.push(method);
        this
    }

    /// Add a predicate the request must match.
    pub fn filter<F: Filter>(self, filter: F) -> (r: RouteBuilder)
        ensures
            r.methods == self.methods,
            r.pattern == self.pattern,
            r.filters@.len() == self.filters@.len() + 1,
            r.filters@.take(self.filters@.len() as int) == self.filters@,
            forall|req: ReqModel| #[trigger] expr_matches(
                r.filters@[self.filters@.len() as int],
                req,
            ) == filter.spec_matches(req),
    {
        let mut this = self;
        this.filters.push(filter.into_expr());
        proof {
            assert(this.filters@.take(self.filters@.len() as int) =~= self.filters@);
        }
        this
    }

    /// Set the path pattern the request's path must match.
    pub fn pattern(self, pattern: ResourcePattern) -> (r: RouteBuilder)
        ensures
            r.methods == self.methods,
            r.filters == self.filters,
            r.pattern == Some(pattern),
    {
        let mut this = self;
        this.pattern = Some(pattern);
        this
    }

    /// Finish construction with the handler.
    pub fn to<H: Handler>(self, handler: H) -> (r: Route<H>)
        ensures
            r.methods == self.methods,
            r.filters == self.filters,
            r.pattern == self.pattern,
            r.handler == handler,
    {
        Route { methods: self.methods, filters: self.filters, pattern: self.pattern, handler }
    }
}

/// A configured route, awaiting compilation into a route service.
pub struct Route<H> {
    pub methods: Vec<Method>,
    pub filters: Vec<FilterExpr>,
    pub pattern: Option<ResourcePattern>,
    pub handler: H,
}

impl<H: Handler> Route<H> {
    /// Start building a route with no constraints.
    pub fn build() -> (r: RouteBuilder)
        ensures
            r.methods@ =~= Seq::<Method>::empty(),
            r.filters@ =~= Seq::<FilterExpr>::empty(),
            r.pattern is None,
    {
        RouteBuilder::new()
    }

    /// Start building a route that requires *GET*.
    pub fn get() -> (r: RouteBuilder)
        ensures
            r.methods@ =~= seq![Method::Get],
            r.filters@ =~= Seq::<FilterExpr>::empty(),
            r.pattern is None,
    {
        RouteBuilder::new().method(Method::Get)
    }

    /// Start building a route that requires *POST*.
    pub fn post() -> (r: RouteBuilder)
        ensures
            r.methods@ =~= seq![Method::Post],
            r.filters@ =~= Seq::<FilterExpr>::empty(),
            r.pattern is None,
    {
        RouteBuilder::new().method(Method::Post)
    }
}

/// A compiled route: what a resource service offers requests to.
pub struct RouteService<H> {
    pub methods: Vec<Method>,
    pub filters: Vec<FilterExpr>,
    pub pattern: Option<ResourcePattern>,
    pub handler: H,
}

impl<H: Handler> RouteService<H> {
    /// Whether this route takes the request: its method is allowed, every
    /// filter matches, and the pattern, if any, matches the path.
    pub open spec fn spec_accepts(&self, req: ReqModel) -> bool {
        &&& spec_allows_method(self.methods@, req.method)
        &&& spec_filters_match(self.filters@, req)
        &&& match self.pattern {
            Some(p) => spec_pattern_matches(p@, req.path),
            None => true,
        }
    }

    /// The request as the handler sees it: on a pattern match the bound
    /// parameters are attached.
    pub open spec fn spec_with_params(&self, req: ReqModel) -> ReqModel {
        match self.pattern {
            Some(p) => ReqModel { params: spec_pattern_params(p@, req.path), ..req },
            None => req,
        }
    }

    /// Decide whether this route takes the request.  On acceptance the
    /// matched path parameters are attached to the request — an observable
    /// side effect — else the request is left as it was.
    #[verifier::loop_isolation(false)]
    pub fn check(&self, req: &mut HttpRequest) -> (r: bool)
        ensures
            r == self.spec_accepts(old(req)@),
            r ==> final(req)@ == self.spec_with_params(old(req)@),
            !r ==> final(req)@ == old(req)@,
    {
        if self.methods.len() > 0 {
            let m = req.method();
            let n = self.methods.len();
            let mut found = false;
            for i in 0..n
                invariant
                    found == (exists|j: int| 0 <= j < i && self.methods@[j] == m),
            {
                if self.methods[i] == m {
                    found = true;
                }
            }
            if !found {
                return false;
            }
        }
        let nf = self.filters.len();
        for i in 0..nf
            invariant
                forall|j: int| 0 <= j < i ==> expr_matches(#[trigger] self.filters@[j], req@),
        {
            if !self.filters[i].eval(req) {
                return false;
            }
        }
        match &self.pattern {
            None => true,
            Some(p) => match p.match_path(req.path().as_str()) {
                Some(params) => {
                    req.set_params(params);
                    true
                },
                None => false,
            },
        }
    }

    /// Run the handler on the accepted request; an extraction or handler
    /// error surfaces as an error value for the owning resource to render.
    pub fn call(&self, req: HttpRequest) -> (r: Result<Response, Error>)
        ensures
            match (r, self.handler.spec_handle(req@)) {
                (Ok(resp), Ok(m)) => resp@ == m,
                (Err(e), Err(m)) => e@ == m,
                _ => false,
            },
    {
        self.handler.handle(&req)
    }
}

} // verus!
