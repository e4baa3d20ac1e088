use webroute::defaultheaders::DefaultHeaders;
use webroute::error::InitError;
use webroute::filter::Header;
use webroute::pattern::ResourcePattern;
use webroute::resource::InitPoll;
use webroute::route::Route;
use webroute::service::FailingHandler;
use webroute::service::TextHandler;
use webroute::HttpRequest;
use webroute::Method;
use webroute::Resource;
use webroute::Response;
use webroute::State;

fn text(status: u16, body: &str) -> TextHandler {
    TextHandler::new(status, body.to_string())
}

#[test]
fn test_default_headers() {
    let mw = DefaultHeaders::new().header("content-type", "0001");

    let resp = Response::ok();
    let resp = mw.apply(resp);
    assert_eq!(resp.get_header("content-type").unwrap().as_str(), "0001");

    let mut resp = Response::ok();
    resp.append_header("content-type".to_string(), "0002".to_string());
    let resp = mw.apply(resp);
    assert_eq!(resp.get_header("content-type").unwrap().as_str(), "0002");
}

#[test]
fn default_headers_existing_kept() {
    // A header the response already carries keeps its value; an absent one
    // gets the configured default.
    let mw = DefaultHeaders::new().header("X", "1");

    let mut resp = Response::ok();
    resp.append_header("X".to_string(), "existing".to_string());
    let resp = mw.apply(resp);
    assert_eq!(resp.get_header("X").unwrap().as_str(), "existing");

    let resp = mw.apply(Response::ok());
    assert_eq!(resp.get_header("X").unwrap().as_str(), "1");
}

#[test]
fn default_headers_content_type_flag() {
    let mw = DefaultHeaders::new().content_type();
    let resp = mw.apply(Response::ok());
    assert_eq!(
        resp.get_header("content-type").unwrap().as_str(),
        "application/octet-stream"
    );

    let mut resp = Response::ok();
    resp.append_header("content-type".to_string(), "text/plain".to_string());
    let resp = mw.apply(resp);
    assert_eq!(resp.get_header("content-type").unwrap().as_str(), "text/plain");
}

#[test]
fn default_headers_apply_twice_is_once() {
    let mw = DefaultHeaders::new().header("X", "1").content_type();
    let once = mw.apply(Response::ok());
    let twice = mw.apply(mw.apply(Response::ok()));
    assert_eq!(
        once.get_header("X").unwrap().as_str(),
        twice.get_header("X").unwrap().as_str()
    );
    assert_eq!(
        once.get_header("content-type").unwrap().as_str(),
        twice.get_header("content-type").unwrap().as_str()
    );
}

#[test]
fn route_ordering_first_match_wins() {
    // Routes [GET -> R1, any -> R2]: a GET request is handled by R1, a POST
    // request falls through to R2.
    let resource = Resource::new().get(text(200, "R1")).to(text(200, "R2"));
    let service = resource.compile();

    let get = HttpRequest::new(Method::Get, "/".to_string(), String::new());
    assert_eq!(service.dispatch(get).body().as_str(), "R1");

    let post = HttpRequest::new(Method::Post, "/".to_string(), String::new());
    assert_eq!(service.dispatch(post).body().as_str(), "R2");
}

#[test]
fn default_fallback() {
    // No routes and no default: a not-found response for any request.
    let service = Resource::<TextHandler>::new().compile();
    let req = HttpRequest::new(Method::Get, "/".to_string(), String::new());
    let resp = service.dispatch(req);
    assert_eq!(resp.status(), 404);

    // With a default configured, the default's response is returned.
    let fallback = Resource::new().to(text(200, "fallback"));
    let service = Resource::new()
        .get(text(200, "only-get"))
        .default_resource(fallback)
        .compile();
    let req = HttpRequest::new(Method::Post, "/".to_string(), String::new());
    let resp = service.dispatch(req);
    assert_eq!(resp.status(), 200);
    assert_eq!(resp.body().as_str(), "fallback");
}

#[test]
fn route_filters_guard_dispatch() {
    let route = Route::<TextHandler>::get()
        .filter(Header("x-require", "yes"))
        .to(text(200, "guarded"));
    let service = Resource::new().route(route).compile();

    let plain = HttpRequest::new(Method::Get, "/".to_string(), String::new());
    assert_eq!(service.dispatch(plain).status(), 404);

    let mut with = HttpRequest::new(Method::Get, "/".to_string(), String::new());
    with.append_header("x-require".to_string(), "yes".to_string());
    assert_eq!(service.dispatch(with).body().as_str(), "guarded");
}

#[test]
fn route_pattern_attaches_params() {
    let route = Route::<TextHandler>::get()
        .pattern(ResourcePattern::new("/{key}/{value}/"))
        .to(text(200, "matched"));
    let service = Resource::new().route(route).compile();

    let req = HttpRequest::with_uri(Method::Get, "/name/user1/");
    assert_eq!(service.dispatch(req).body().as_str(), "matched");

    let req = HttpRequest::with_uri(Method::Get, "/name/");
    assert_eq!(service.dispatch(req).status(), 404);
}

#[test]
fn handler_error_becomes_response() {
    let service = Resource::new()
        .to(FailingHandler::new(400, "broken".to_string()))
        .compile();
    let req = HttpRequest::new(Method::Get, "/".to_string(), String::new());
    let resp = service.dispatch(req);
    assert_eq!(resp.status(), 400);
    assert_eq!(resp.body().as_str(), "broken");
}

#[test]
fn resource_middleware_applied() {
    let service = Resource::new()
        .to(text(200, "ok"))
        .middleware(DefaultHeaders::new().header("x-version", "0.2"))
        .compile();
    let req = HttpRequest::new(Method::Get, "/".to_string(), String::new());
    let resp = service.dispatch(req);
    assert_eq!(resp.get_header("x-version").unwrap().as_str(), "0.2");
    assert_eq!(resp.body().as_str(), "ok");
}

#[test]
fn construction_joins_all_slots() {
    let resource = Resource::new().get(text(200, "R1")).to(text(200, "R2"));
    let mut create = resource.new_service();

    // One route still pending: not ready yet.
    let polls = vec![InitPoll::Pending, InitPoll::Ready];
    assert!(matches!(create.poll(InitPoll::Ready, &polls), Ok(None)));

    // Everything resolves: the service exists and dispatches.
    let polls = vec![InitPoll::Ready, InitPoll::Ready];
    let service = match create.poll(InitPoll::Ready, &polls) {
        Ok(Some(service)) => service,
        _ => panic!("construction should finish"),
    };
    let req = HttpRequest::new(Method::Get, "/".to_string(), String::new());
    assert_eq!(service.dispatch(req).body().as_str(), "R1");
}

#[test]
fn construction_failure_aborts() {
    let resource = Resource::new().get(text(200, "R1")).to(text(200, "R2"));
    let mut create = resource.new_service();
    let polls = vec![InitPoll::Failed, InitPoll::Ready];
    assert!(matches!(create.poll(InitPoll::Ready, &polls), Err(InitError)));
}

#[test]
fn construction_builds_default_too() {
    let fallback = Resource::new().to(text(200, "fallback"));
    let resource = Resource::new()
        .get(text(200, "only-get"))
        .default_resource(fallback);
    let mut create = resource.new_service();

    // The default still pending keeps the whole resource not ready.
    let polls = vec![InitPoll::Ready];
    assert!(matches!(create.poll(InitPoll::Pending, &polls), Ok(None)));

    let polls = vec![InitPoll::Ready];
    let service = match create.poll(InitPoll::Ready, &polls) {
        Ok(Some(service)) => service,
        _ => panic!("construction should finish"),
    };
    let req = HttpRequest::new(Method::Post, "/".to_string(), String::new());
    assert_eq!(service.dispatch(req).body().as_str(), "fallback");
}

#[test]
fn pattern_round_trip() {
    let pattern = ResourcePattern::new("/{key}/{value}/");
    let params = pattern.match_path("/name/user1/").unwrap();
    assert_eq!(params.len(), 2);
    assert_eq!(params.get("key").unwrap().as_str(), "name");
    assert_eq!(params.get("value").unwrap().as_str(), "user1");

    assert!(pattern.match_path("/name/").is_none());
    assert!(pattern.match_path("/name/user1").is_none());
    assert!(pattern.match_path("/name//").is_none());

    let literal = ResourcePattern::new("/index.html");
    assert!(literal.match_path("/index.html").is_some());
    assert!(literal.match_path("/other.html").is_none());
}

#[test]
fn uri_splits_path_and_query() {
    let req = HttpRequest::with_uri(Method::Get, "/name/user1/?id=test");
    assert_eq!(req.path().as_str(), "/name/user1/");
    assert_eq!(req.query_string().as_str(), "id=test");

    let req = HttpRequest::with_uri(Method::Get, "/plain");
    assert_eq!(req.path().as_str(), "/plain");
    assert_eq!(req.query_string().as_str(), "");
}

#[test]
fn state_holds_value() {
    let state = State::new(5u32);
    assert_eq!(*state.get_ref(), 5);

    let named = State::new("shared".to_string());
    assert_eq!(named.get_ref().as_str(), "shared");
}
