//! An ordered set of routes plus an optional default fallback, compiled
//! into one dispatchable service.  Requests are offered to the routes in
//! declaration order; the first whose check passes handles the call; when
//! none does, the default service — itself a full resource — answers, else
//! a not-found response is synthesized.  Construction of the service is
//! asynchronous: every route's service and the default must resolve, and a
//! failure of any one aborts the whole construction.

use vstd::prelude::*;

use crate::defaultheaders::spec_apply_all;
use crate::defaultheaders::DefaultHeaders;
use crate::error::spec_error_response;
use crate::error::InitError;
use crate::http::Method;
use crate::request::HttpRequest;
use crate::request::ReqModel;
use crate::response::not_found_model;
use crate::response::RespModel;
use crate::response::Response;
use crate::route::Route;
use crate::route::RouteBuilder;
use crate::route::RouteService;
use crate::service::Handler;
use crate::service::HttpService;

verus! {

/// A resource definition: routes in declaration order, an optional default
/// fallback — itself a resource — and response middleware, applied in the
/// order added.
pub struct Resource<H> {
    pub routes: Vec<Route<H>>,
    pub default: Option<Box<Resource<H>>>,
    pub middlewares: Vec<DefaultHeaders>,
}

/// Compiling a route is restructuring: the service carries the route's
/// methods, filters, pattern and handler.
pub open spec fn spec_compile_route<H>(route: Route<H>) -> RouteService<H> {
    RouteService {
        methods: route.methods,
        filters: route.filters,
        pattern: route.pattern,
        handler: route.handler,
    }
}

/// Compile one route into its service.
pub fn compile_route<H: Handler>(route: Route<H>) -> (r: RouteService<H>)
    ensures
        r == spec_compile_route(route),
{
    let Route { methods, filters, pattern, handler } = route;
    RouteService { methods, filters, pattern, handler }
}

/// The relation between a resource definition and its compiled service:
/// each route compiled in order, the middleware carried over, and the
/// default compiled recursively.
pub open spec fn resource_compiles_to<H: Handler>(
    res: Resource<H>,
    svc: ResourceService<H>,
) -> bool
    decreases res,
{
    &&& svc.routes@.len() == res.routes@.len()
    &&& (forall|i: int|
        0 <= i < res.routes@.len() ==> svc.routes@[i] == spec_compile_route(
            #[trigger] res.routes@[i],
        ))
    &&& svc.middlewares == res.middlewares
    &&& match (res.default, svc.default) {
        (None, None) => true,
        (Some(a), Some(b)) => resource_compiles_to(*a, *b),
        _ => false,
    }
}

impl<H: Handler> Resource<H> {
    /// A resource with no routes, no default and no middleware.
    pub fn new() -> (r: Resource<H>)
        ensures
            r.routes@ =~= Seq::<Route<H>>::empty(),
            r.default is None,
            r.middlewares@ =~= Seq::<DefaultHeaders>::empty(),
    {
        Resource { routes: Vec::new(), default: None, middlewares: Vec::new() }
    }

    /// Register a configured route.
    pub fn route(self, route: Route<H>) -> (r: Resource<H>)
        ensures
            r.routes@ == self.routes@.push(route),
            r.default == self.default,
            r.middlewares == self.middlewares,
    {
        let mut this = self;
        this.routes.push(route);
        this
    }

    /// Register a route for the given method with the given handler.
    pub fn method(self, method: Method, handler: H) -> (r: Resource<H>)
        ensures
            r.routes@.len() == self.routes@.len() + 1,
            r.routes@.take(self.routes@.len() as int) == self.routes@,
            r.routes@.last().methods@ =~= seq![method],
            r.routes@.last().filters@ =~= Seq::<crate::filter::FilterExpr>::empty(),
            r.routes@.last().pattern is None,
            r.routes@.last().handler == handler,
            r.default == self.default,
            r.middlewares == self.middlewares,
    {
        let r = self.route(RouteBuilder::new().method(method).to(handler));
        proof {
            assert(r.routes@.take(r.routes@.len() - 1) =~= r.routes@.drop_last());
        }
        r
    }

    /// Register a `GET` route with the given handler.
    pub fn get(self, handler: H) -> (r: Resource<H>)
        ensures
            r.routes@.len() == self.routes@.len() + 1,
            r.routes@.take(self.routes@.len() as int) == self.routes@,
            r.routes@.last().methods@ =~= seq![Method::Get],
            r.routes@.last().filters@ =~= Seq::<crate::filter::FilterExpr>::empty(),
            r.routes@.last().pattern is None,
            r.routes@.last().handler == handler,
            r.default == self.default,
            r.middlewares == self.middlewares,
    {
        let r = self.method(Method::Get, handler);
        proof {
            assert(r.routes@.take(r.routes@.len() - 1) =~= r.routes@.drop_last());
        }
        r
    }

    /// Register a `POST` route with the given handler.
    pub fn post(self, handler: H) -> (r: Resource<H>)
        ensures
            r.routes@.len() == self.routes@.len() + 1,
            r.routes@.take(self.routes@.len() as int) == self.routes@,
            r.routes@.last().methods@ =~= seq![Method::Post],
            r.routes@.last().filters@ =~= Seq::<crate::filter::FilterExpr>::empty(),
            r.routes@.last().pattern is None,
            r.routes@.last().handler == handler,
            r.default == self.default,
            r.middlewares == self.middlewares,
    {
        let r = self.method(Method::Post, handler);
        proof {
            assert(r.routes@.take(r.routes@.len() - 1) =~= r.routes@.drop_last());
        }
        r
    }

    /// Register a `PUT` route with the given handler.
    pub fn put(self, handler: H) -> (r: Resource<H>)
        ensures
            r.routes@.len() == self.routes@.len() + 1,
            r.routes@.take(self.routes@.len() as int) == self.routes@,
            r.routes@.last().methods@ =~= seq![Method::Put],
            r.routes@.last().filters@ =~= Seq::<crate::filter::FilterExpr>::empty(),
            r.routes@.last().pattern is None,
            r.routes@.last().handler == handler,
            r.default == self.default,
            r.middlewares == self.middlewares,
    {
        let r = self.method(Method::Put, handler);
        proof {
            assert(r.routes@.take(r.routes@.len() - 1) =~= r.routes@.drop_last());
        }
        r
    }

    /// Register a `DELETE` route with the given handler.
    pub fn delete(self, handler: H) -> (r: Resource<H>)
        ensures
            r.routes@.len() == self.routes@.len() + 1,
            r.routes@.take(self.routes@.len() as int) == self.routes@,
            r.routes@.last().methods@ =~= seq![Method::Delete],
            r.routes@.last().filters@ =~= Seq::<crate::filter::FilterExpr>::empty(),
            r.routes@.last().pattern is None,
            r.routes@.last().handler == handler,
            r.default == self.default,
            r.middlewares == self.middlewares,
    {
        let r = self.method(Method::Delete, handler);
        proof {
            assert(r.routes@.take(r.routes@.len() - 1) =~= r.routes@.drop_last());
        }
        r
    }

    /// Register a `HEAD` route with the given handler.
    pub fn head(self, handler: H) -> (r: Resource<H>)
        ensures
            r.routes@.len() == self.routes@.len() + 1,
            r.routes@.take(self.routes@.len() as int) == self.routes@,
            r.routes@.last().methods@ =~= seq![Method::Head],
            r.routes@.last().filters@ =~= Seq::<crate::filter::FilterExpr>::empty(),
            r.routes@.last().pattern is None,
            r.routes@.last().handler == handler,
            r.default == self.default,
            r.middlewares == self.middlewares,
    {
        let r = self.method(Method::Head, handler);
        proof {
            assert(r.routes@.take(r.routes@.len() - 1) =~= r.routes@.drop_last());
        }
        r
    }

    /// Register a route accepting any method with the given handler.
    pub fn to(self, handler: H) -> (r: Resource<H>)
        ensures
            r.routes@.len() == self.routes@.len() + 1,
            r.routes@.take(self.routes@.len() as int) == self.routes@,
            r.routes@.last().methods@ =~= Seq::<Method>::empty(),
            r.routes@.last().filters@ =~= Seq::<crate::filter::FilterExpr>::empty(),
            r.routes@.last().pattern is None,
            r.routes@.last().handler == handler,
            r.default == self.default,
            r.middlewares == self.middlewares,
    {
        let r = self.route(RouteBuilder::new().to(handler));
        proof {
            assert(r.routes@.take(r.routes@.len() - 1) =~= r.routes@.drop_last());
        }
        r
    }

    /// Register a resource-level middleware; middleware wraps the dispatch
    /// endpoint and is applied to responses in the order added.
    pub fn middleware(self, mw: DefaultHeaders) -> (r: Resource<H>)
        ensures
            r.routes == self.routes,
            r.default == self.default,
            r.middlewares@ == self.middlewares@.push(mw),
    {
        let mut this = self;
        this.middlewares.push(mw);
        this
    }

    /// Set the default resource, consulted only after every route has
    /// declined.
    pub fn default_resource(self, default: Resource<H>) -> (r: Resource<H>)
        ensures
            r.routes == self.routes,
            r.middlewares == self.middlewares,
            r.default matches Some(d) && *d == default,
    {
        let mut this = self;
        this.default = Some(Box::new(default));
        this
    }

    /// Compile the definition and every nested default into services in one
    /// step: the deterministic part of construction.
    pub fn compile(self) -> (r: ResourceService<H>)
        ensures
            resource_compiles_to(self, r),
        decreases self,
    {
        let Resource { routes, default, middlewares } = self;
        let ghost routes0 = routes@;
        let mut routes = routes;
        let mut services: Vec<RouteService<H>> = Vec::new();
        while routes.len() > 0
            invariant
                routes@ =~= routes0.skip(services@.len() as int),
                services@.len() <= routes0.len(),
                forall|i: int|
                    0 <= i < services@.len() ==> services@[i] == spec_compile_route(
                        #[trigger] routes0[i],
                    ),
            decreases routes@.len(),
        {
            let ghost k = services@.len() as int;
            proof {
                assert(routes@[0] == routes0[k]);
                assert(routes@.remove(0) =~= routes0.skip(k + 1));
            }
            let rt = routes.remove(0);
            services.push(compile_route(rt));
        }
        let default_svc = match default {
            None => None,
            Some(b) => {
                let inner = *b;
                Some(Box::new(inner.compile()))
            },
        };
        ResourceService { routes: services, default: default_svc, middlewares }
    }

    /// Begin asynchronous construction of the resource's service: one
    /// construction slot per route, one for the default if present.
    pub fn new_service(self) -> (r: CreateResourceService<H>)
        ensures
            r.items@.len() == self.routes@.len(),
            forall|i: int|
                0 <= i < self.routes@.len() ==> r.items@[i] == CreateRouteServiceItem::Future(
                    #[trigger] self.routes@[i],
                ),
            match self.default {
                None => r.default is None,
                Some(b) => r.default == Some(DefaultSlot::Future(b)),
            },
            r.middlewares == self.middlewares,
    {
        let Resource { routes, default, middlewares } = self;
        let ghost routes0 = routes@;
        let mut routes = routes;
        let mut items: Vec<CreateRouteServiceItem<H>> = Vec::new();
        while routes.len() > 0
            invariant
                routes@ =~= routes0.skip(items@.len() as int),
                items@.len() <= routes0.len(),
                forall|i: int|
                    0 <= i < items@.len() ==> items@[i] == CreateRouteServiceItem::Future(
                        #[trigger] routes0[i],
                    ),
            decreases routes@.len(),
        {
            let ghost k = items@.len() as int;
            proof {
                assert(routes@[0] == routes0[k]);
                assert(routes@.remove(0) =~= routes0.skip(k + 1));
            }
            let rt = routes.remove(0);
            items.push(CreateRouteServiceItem::Future(rt));
        }
        let default_slot = match default {
            None => None,
            Some(b) => Some(DefaultSlot::Future(b)),
        };
        CreateResourceService { items, default: default_slot, middlewares }
    }
}

impl<H: Handler> Default for Resource<H> {
    fn default() -> (r: Resource<H>)
        ensures
            r.routes@ =~= Seq::<Route<H>>::empty(),
            r.default is None,
            r.middlewares@ =~= Seq::<DefaultHeaders>::empty(),
    {
        Resource::new()
    }
}

/// One construction slot's answer to being polled.
#[derive(Clone, Copy, PartialEq, Eq, Structural, Debug)]
pub enum InitPoll {
    /// Construction has not finished yet.
    Pending,
    /// Construction finished.
    Ready,
    /// Construction failed; the whole resource's construction aborts.
    Failed,
}

/// A route's construction: still in flight, or finished.
pub enum CreateRouteServiceItem<H> {
    Future(Route<H>),
    Service(RouteService<H>),
}

/// The default fallback's construction: still in flight, or finished.
pub enum DefaultSlot<H> {
    Future(Box<Resource<H>>),
    Service(Box<ResourceService<H>>),
}

/// The first position whose route construction is in flight and polls as
/// failed this cycle.
pub open spec fn spec_first_init_failure<H>(
    items: Seq<CreateRouteServiceItem<H>>,
    polls: Seq<InitPoll>,
) -> Option<int>
    decreases polls.len(),
{
    if polls.len() == 0 || items.len() == 0 {
        None
    } else if items[0] is Future && polls[0] is Failed {
        Some(0int)
    } else {
        match spec_first_init_failure(items.drop_first(), polls.drop_first()) {
            Some(i) => Some(i + 1),
            None => None,
        }
    }
}

/// `spec_first_init_failure` names the first failing in-flight position, or
/// `None` when no in-flight slot's poll fails.
pub proof fn lemma_first_init_failure<H>(
    items: Seq<CreateRouteServiceItem<H>>,
    polls: Seq<InitPoll>,
)
    requires
        items.len() == polls.len(),
    ensures
        match spec_first_init_failure(items, polls) {
            Some(i) => 0 <= i < polls.len() && items[i] is Future && polls[i] is Failed && (forall|
                j: int,
            |
                0 <= j < i ==> !(items[j] is Future && polls[j] is Failed)),
            None => forall|j: int|
                0 <= j < polls.len() ==> !(items[j] is Future && polls[j] is Failed),
        },
    decreases polls.len(),
{
    if polls.len() > 0 && !(items[0] is Future && polls[0] is Failed) {
        let ti = items.drop_first();
        let tp = polls.drop_first();
        lemma_first_init_failure(ti, tp);
        assert(forall|j: int| 0 <= j < ti.len() ==> ti[j] == items[j + 1]);
        assert(forall|j: int| 0 <= j < tp.len() ==> tp[j] == polls[j + 1]);
        match spec_first_init_failure(ti, tp) {
            Some(i) => {
                assert forall|j: int| 0 <= j < i + 1 implies !(items[j] is Future
                    && polls[j] is Failed) by {
                    if j > 0 {
                        assert(ti[j - 1] == items[j] && tp[j - 1] == polls[j]);
                    }
                }
            },
            None => {
                assert forall|j: int| 0 <= j < polls.len() implies !(items[j] is Future
                    && polls[j] is Failed) by {
                    if j > 0 {
                        assert(ti[j - 1] == items[j] && tp[j - 1] == polls[j]);
                    }
                }
            },
        }
    }
}

/// The construction slots after positions below `upto` were processed: an
/// in-flight slot whose poll is ready becomes the compiled route service,
/// all else stays.
pub open spec fn spec_items_after<H>(
    items: Seq<CreateRouteServiceItem<H>>,
    polls: Seq<InitPoll>,
    upto: int,
) -> Seq<CreateRouteServiceItem<H>> {
    Seq::new(
        items.len(),
        |i: int|
            if i < upto && items[i] is Future && polls[i] is Ready {
                CreateRouteServiceItem::Service(spec_compile_route(items[i]->Future_0))
            } else {
                items[i]
            },
    )
}

/// How the default slot moves under one poll: nothing to build or already
/// built stays; in flight resolves on `Ready` to a compiled service.
pub open spec fn spec_default_steps<H: Handler>(
    before: Option<DefaultSlot<H>>,
    dp: InitPoll,
    after: Option<DefaultSlot<H>>,
) -> bool {
    match before {
        None => after is None,
        Some(DefaultSlot::Service(s)) => after == Some(DefaultSlot::Service(s)),
        Some(DefaultSlot::Future(res)) => match dp {
            InitPoll::Ready => after matches Some(DefaultSlot::Service(svc))
                && resource_compiles_to(*res, *svc),
            _ => after == before,
        },
    }
}

/// The in-flight construction of a resource service.  Every route's service
/// and the default, if any, must resolve — `Ready` or `Failed` — before the
/// service exists; a failure of any one aborts the whole construction.
pub struct CreateResourceService<H> {
    pub items: Vec<CreateRouteServiceItem<H>>,
    pub default: Option<DefaultSlot<H>>,
    pub middlewares: Vec<DefaultHeaders>,
}

impl<H: Handler> CreateResourceService<H> {
    /// Run one construction poll cycle.  The default slot is polled first
    /// with `default_poll`, then each route slot `i` still in flight with
    /// `polls[i]`, in order.  A failure aborts at once with a construction
    /// error; otherwise `Ok(Some(service))` once everything has resolved,
    /// `Ok(None)` while something is still pending.
    #[verifier::loop_isolation(false)]
    pub fn poll(&mut self, default_poll: InitPoll, polls: &Vec<InitPoll>) -> (r: Result<
        Option<ResourceService<H>>,
        InitError,
    >)
        requires
            polls@.len() == old(self).items@.len(),
        ensures
            ({
                let items0 = old(self).items@;
                let default_fails = old(self).default matches Some(DefaultSlot::Future(_))
                    && default_poll is Failed;
                if default_fails {
                    r is Err && *final(self) == *old(self)
                } else {
                    match spec_first_init_failure(items0, polls@) {
                        Some(k) => r is Err && final(self).items@ == spec_items_after(
                            items0,
                            polls@,
                            k,
                        ) && spec_default_steps(
                            old(self).default,
                            default_poll,
                            final(self).default,
                        ) && final(self).middlewares == old(self).middlewares,
                        None => {
                            let new_items = spec_items_after(items0, polls@, items0.len() as int);
                            let default_done = match old(self).default {
                                None => true,
                                Some(DefaultSlot::Service(_)) => true,
                                Some(DefaultSlot::Future(_)) => default_poll is Ready,
                            };
                            let items_done = forall|j: int|
                                0 <= j < new_items.len() ==> new_items[j] is Service;
                            if default_done && items_done {
                                (r matches Ok(Some(svc)) && ({
                                    &&& svc.routes@.len() == new_items.len()
                                    &&& (forall|j: int|
                                        0 <= j < new_items.len() ==> svc.routes@[j] == #[trigger] new_items[j]->Service_0)
                                    &&& svc.middlewares@ == old(self).middlewares@
                                    &&& match old(self).default {
                                        None => svc.default is None,
                                        Some(DefaultSlot::Service(d)) => svc.default == Some(d),
                                        Some(DefaultSlot::Future(res)) => svc.default matches Some(
                                            d,
                                        ) && resource_compiles_to(*res, *d),
                                    }
                                })) && final(self).items@.len() == 0
                            } else {
                                (r matches Ok(None)) && final(self).items@ == new_items
                                    && spec_default_steps(
                                    old(self).default,
                                    default_poll,
                                    final(self).default,
                                ) && final(self).middlewares == old(self).middlewares
                            }
                        },
                    }
                }
            }),
    {
        proof {
            lemma_first_init_failure(self.items@, polls@);
        }
        let ghost items0 = self.items@;
        let mut default_done = true;
        match self.default.take() {
            None => {},
            Some(DefaultSlot::Service(s)) => {
                self.default = Some(DefaultSlot::Service(s));
            },
            Some(DefaultSlot::Future(res)) => match default_poll {
                InitPoll::Ready => {
                    let inner = *res;
                    let svc = inner.compile();
                    self.default = Some(DefaultSlot::Service(Box::new(svc)));
                },
                InitPoll::Pending => {
                    self.default = Some(DefaultSlot::Future(res));
                    default_done = false;
                },
                InitPoll::Failed => {
                    self.default = Some(DefaultSlot::Future(res));
                    return Err(InitError);
                },
            },
        }
        let n = self.items.len();
        let mut routes_done = true;
        let mut i: usize = 0;
        while i < n
            invariant
                0 <= i <= n,
                n == items0.len(),
                self.items@ =~= spec_items_after(items0, polls@, i as int),
                self.items@.len() == n,
                forall|j: int| 0 <= j < i ==> !(items0[j] is Future && polls@[j] is Failed),
                routes_done == (forall|j: int|
                    0 <= j < i ==> spec_items_after(items0, polls@, items0.len() as int)[j]
                        is Service),
                spec_default_steps(old(self).default, default_poll, self.default),
                default_done == (match old(self).default {
                    None => true,
                    Some(DefaultSlot::Service(_)) => true,
                    Some(DefaultSlot::Future(_)) => default_poll is Ready,
                }),
                self.middlewares == old(self).middlewares,
            decreases n - i,
        {
            let item = self.items.remove(i);
            let ghost items_mid = self.items@;
            match item {
                CreateRouteServiceItem::Service(s) => {
                    self.items.insert(i, CreateRouteServiceItem::Service(s));
                },
                CreateRouteServiceItem::Future(rt) => match polls[i] {
                    InitPoll::Ready => {
                        let svc = compile_route(rt);
                        self.items.insert(i, CreateRouteServiceItem::Service(svc));
                    },
                    InitPoll::Pending => {
                        self.items.insert(i, CreateRouteServiceItem::Future(rt));
                        routes_done = false;
                    },
                    InitPoll::Failed => {
                        self.items.insert(i, CreateRouteServiceItem::Future(rt));
                        proof {
                            assert(spec_first_init_failure(items0, polls@) == Some(i as int));
                            assert(self.items@ =~= spec_items_after(items0, polls@, i as int));
                        }
                        return Err(InitError);
                    },
                },
            }
            proof {
                assert(self.items@ =~= spec_items_after(items0, polls@, i as int + 1));
                let fin = spec_items_after(items0, polls@, items0.len() as int);
                assert(fin[i as int] == (if items0[i as int] is Future
                    && polls@[i as int] is Ready {
                    CreateRouteServiceItem::Service(spec_compile_route(items0[i as int]->Future_0))
                } else {
                    items0[i as int]
                }));
                assert(spec_items_after(items0, polls@, i as int)[i as int] == items0[i as int]);
            }
            i = i + 1;
        }
        proof {
            assert(spec_first_init_failure(items0, polls@) is None);
        }
        if !(default_done && routes_done) {
            return Ok(None);
        }
        let ghost new_items = spec_items_after(items0, polls@, items0.len() as int);
        let mut routes: Vec<RouteService<H>> = Vec::new();
        while self.items.len() > 0
            invariant
                routes@.len() + self.items@.len() == new_items.len(),
                self.items@ =~= new_items.skip(routes@.len() as int),
                forall|j: int| 0 <= j < new_items.len() ==> new_items[j] is Service,
                forall|j: int|
                    0 <= j < routes@.len() ==> routes@[j] == #[trigger] new_items[j]->Service_0,
                spec_default_steps(old(self).default, default_poll, self.default),
                self.middlewares == old(self).middlewares,
            decreases self.items@.len(),
        {
            let ghost k = routes@.len() as int;
            proof {
                assert(self.items@[0] == new_items[k]);
                assert(self.items@.remove(0) =~= new_items.skip(k + 1));
            }
            match self.items.remove(0) {
                CreateRouteServiceItem::Service(s) => {
                    routes.push(s);
                },
                CreateRouteServiceItem::Future(_) => {
                    proof {
                        assert(false);
                    }
                    return Err(InitError);
                },
            }
        }
        let default_svc = match self.default.take() {
            None => None,
            Some(DefaultSlot::Service(b)) => Some(b),
            Some(DefaultSlot::Future(_)) => {
                proof {
                    assert(false);
                }
                return Err(InitError);
            },
        };
        let middlewares = self.middlewares.split_off(0);
        proof {
            assert(middlewares@ =~= old(self).middlewares@);
        }
        Ok(Some(ResourceService { routes, default: default_svc, middlewares }))
    }
}

/// A compiled resource: route services in declaration order, the compiled
/// default, and the middleware to apply.
pub struct ResourceService<H> {
    pub routes: Vec<RouteService<H>>,
    pub default: Option<Box<ResourceService<H>>>,
    pub middlewares: Vec<DefaultHeaders>,
}

/// The position of the first route accepting the request, if any.
pub open spec fn spec_select<H: Handler>(
    routes: Seq<RouteService<H>>,
    req: ReqModel,
) -> Option<int>
    decreases routes.len(),
{
    if routes.len() == 0 {
        None
    } else if routes[0].spec_accepts(req) {
        Some(0int)
    } else {
        match spec_select(routes.drop_first(), req) {
            Some(i) => Some(i + 1),
            None => None,
        }
    }
}

/// Routes are tried in declaration order and the first full match wins:
/// `spec_select` names the first accepting route, and `None` means every
/// route declined.
pub proof fn lemma_select_first<H: Handler>(routes: Seq<RouteService<H>>, req: ReqModel)
    ensures
        match spec_select(routes, req) {
            Some(i) => 0 <= i < routes.len() && routes[i].spec_accepts(req) && (forall|j: int|
                0 <= j < i ==> !(#[trigger] routes[j].spec_accepts(req))),
            None => forall|j: int|
                0 <= j < routes.len() ==> !(#[trigger] routes[j].spec_accepts(req)),
        },
    decreases routes.len(),
{
    if routes.len() > 0 && !routes[0].spec_accepts(req) {
        let t = routes.drop_first();
        lemma_select_first(t, req);
        assert(forall|j: int| 0 <= j < t.len() ==> t[j] == routes[j + 1]);
        match spec_select(t, req) {
            Some(i) => {
                assert forall|j: int| 0 <= j < i + 1 implies !(#[trigger] routes[j].spec_accepts(
                    req,
                )) by {
                    if j > 0 {
                        assert(t[j - 1] == routes[j]);
                    }
                }
            },
            None => {
                assert forall|j: int| 0 <= j < routes.len() implies !(
                #[trigger] routes[j].spec_accepts(req)) by {
                    if j > 0 {
                        assert(t[j - 1] == routes[j]);
                    }
                }
            },
        }
    }
}

/// The first full match wins: a route that accepts, with every earlier
/// route declining, is the one selected.
pub proof fn lemma_first_match_wins<H: Handler>(
    routes: Seq<RouteService<H>>,
    req: ReqModel,
    i: int,
)
    requires
        0 <= i < routes.len(),
        routes[i].spec_accepts(req),
        forall|j: int| 0 <= j < i ==> !(#[trigger] routes[j].spec_accepts(req)),
    ensures
        spec_select(routes, req) == Some(i),
{
    lemma_select_first(routes, req);
    match spec_select(routes, req) {
        Some(k) => {
            if k < i {
                assert(!routes[k].spec_accepts(req));
            } else if k > i {
                assert(!routes[i].spec_accepts(req));
            }
        },
        None => {
            assert(!routes[i].spec_accepts(req));
        },
    }
}

impl<H: Handler> ResourceService<H> {
    /// The response dispatch gives: the first accepting route's handler
    /// outcome — parameters attached, an error rendered as its response —
    /// else the default service's response, else not-found; the resource's
    /// own middleware applied on top, in the order added.
    pub open spec fn spec_dispatch(&self, req: ReqModel) -> RespModel
        decreases self,
    {
        let inner = match spec_select(self.routes@, req) {
            Some(i) => {
                let route = self.routes@[i];
                match route.handler.spec_handle(route.spec_with_params(req)) {
                    Ok(resp) => resp,
                    Err(e) => spec_error_response(e),
                }
            },
            None => match self.default {
                Some(d) => d.spec_dispatch(req),
                None => not_found_model(),
            },
        };
        spec_apply_all(self.middlewares@, inner)
    }

    /// Apply this resource's middleware to a response, in the order added.
    #[verifier::loop_isolation(false)]
    fn apply_middleware(&self, res: Response) -> (r: Response)
        ensures
            r@ == spec_apply_all(self.middlewares@, res@),
    {
        let ghost before = res@;
        let mut res = res;
        let n = self.middlewares.len();
        proof {
            assert(self.middlewares@.skip(0) =~= self.middlewares@);
        }
        for i in 0..n
            invariant
                spec_apply_all(self.middlewares@, before) == spec_apply_all(
                    self.middlewares@.skip(i as int),
                    res@,
                ),
        {
            proof {
                assert(self.middlewares@.skip(i as int)[0] == self.middlewares@[i as int]);
                assert(self.middlewares@.skip(i as int).drop_first() =~= self.middlewares@.skip(
                    i as int + 1,
                ));
            }
            res = self.middlewares[i].apply(res);
        }
        proof {
            assert(self.middlewares@.skip(n as int) =~= Seq::<DefaultHeaders>::empty());
        }
        res
    }

    /// Dispatch a request: offer it to each route in declaration order; the
    /// first whose check passes handles it, with no backtracking; when none
    /// does, the default service answers, else a not-found response is
    /// synthesized; the resource's middleware post-processes the response.
    #[verifier::loop_isolation(false)]
    pub fn dispatch(&self, req: HttpRequest) -> (r: Response)
        ensures
            r@ == self.spec_dispatch(req@),
        decreases *self,
    {
        proof {
            lemma_select_first(self.routes@, req@);
        }
        let ghost req0 = req@;
        let mut req = req;
        let n = self.routes.len();
        for i in 0..n
            invariant
                req@ == req0,
                forall|j: int| 0 <= j < i ==> !(#[trigger] self.routes@[j].spec_accepts(req0)),
        {
            if self.routes[i].check(&mut req) {
                proof {
                    assert(spec_select(self.routes@, req0) == Some(i as int));
                }
                let inner = match self.routes[i].call(req) {
                    Ok(resp) => resp,
                    Err(e) => e.error_response(),
                };
                return self.apply_middleware(inner);
            }
        }
        proof {
            assert(spec_select(self.routes@, req0) is None);
        }
        match &self.default {
            Some(d) => {
                let inner = d.dispatch(req);
                self.apply_middleware(inner)
            },
            None => self.apply_middleware(Response::not_found()),
        }
    }
}

/// With no routes, no default and no middleware, every request gets the
/// not-found response.
pub proof fn lemma_no_route_not_found<H: Handler>(svc: ResourceService<H>, req: ReqModel)
    requires
        svc.routes@.len() == 0,
        svc.default is None,
        svc.middlewares@.len() == 0,
    ensures
        svc.spec_dispatch(req) == not_found_model(),
{
}

/// The default is consulted exactly when every route has declined: with one
/// configured and no middleware on top, its response is the resource's.
pub proof fn lemma_default_fallback<H: Handler>(svc: ResourceService<H>, req: ReqModel)
    requires
        spec_select(svc.routes@, req) is None,
        svc.middlewares@.len() == 0,
    ensures
        match svc.default {
            Some(d) => svc.spec_dispatch(req) == d.spec_dispatch(req),
            None => svc.spec_dispatch(req) == not_found_model(),
        },
{
}

impl<H: Handler> HttpService for ResourceService<H> {
    open spec fn spec_response(&self, req: ReqModel) -> RespModel {
        self.spec_dispatch(req)
    }

    open spec fn spec_ready(&self) -> bool {
        true
    }

    fn poll_ready(&self) -> (r: bool) {
        true
    }

    fn call(&self, req: HttpRequest) -> (r: Response) {
        self.dispatch(req)
    }
}

} // verus!
