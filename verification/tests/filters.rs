use webroute::filter::All;
use webroute::filter::Any;
use webroute::filter::Connect;
use webroute::filter::Delete;
use webroute::filter::Filter;
use webroute::filter::Get;
use webroute::filter::Head;
use webroute::filter::Header;
use webroute::filter::Host;
use webroute::filter::Not;
use webroute::filter::Options;
use webroute::filter::Patch;
use webroute::filter::Post;
use webroute::filter::Put;
use webroute::filter::Trace;
use webroute::HttpRequest;
use webroute::Method;

fn request_with_method(method: Method) -> HttpRequest {
    HttpRequest::new(method, "/".to_string(), String::new())
}

#[test]
fn test_header() {
    let mut req = request_with_method(Method::Get);
    req.append_header("transfer-encoding".to_string(), "chunked".to_string());

    let pred = Header("transfer-encoding", "chunked");
    assert!(pred.check(&req));

    let pred = Header("transfer-encoding", "other");
    assert!(!pred.check(&req));

    let pred = Header("content-type", "other");
    assert!(!pred.check(&req));
}

#[test]
fn test_host() {
    // Host matching is not wired to connection metadata: the predicate
    // never matches, whatever the request carries.
    let mut req = request_with_method(Method::Get);
    req.append_header("host".to_string(), "www.rust-lang.org".to_string());

    let pred = Host("www.rust-lang.org");
    assert!(!pred.check(&req));

    let pred = Host("localhost");
    assert!(!pred.check(&req));
}

#[test]
fn test_methods() {
    let req = request_with_method(Method::Get);
    let req2 = request_with_method(Method::Post);

    assert!(Get().check(&req));
    assert!(!Get().check(&req2));
    assert!(Post().check(&req2));
    assert!(!Post().check(&req));

    let r = request_with_method(Method::Put);
    assert!(Put().check(&r));
    assert!(!Put().check(&req));

    let r = request_with_method(Method::Delete);
    assert!(Delete().check(&r));
    assert!(!Delete().check(&req));

    let r = request_with_method(Method::Head);
    assert!(Head().check(&r));
    assert!(!Head().check(&req));

    let r = request_with_method(Method::Options);
    assert!(Options().check(&r));
    assert!(!Options().check(&req));

    let r = request_with_method(Method::Connect);
    assert!(Connect().check(&r));
    assert!(!Connect().check(&req));

    let r = request_with_method(Method::Patch);
    assert!(Patch().check(&r));
    assert!(!Patch().check(&req));

    let r = request_with_method(Method::Trace);
    assert!(Trace().check(&r));
    assert!(!Trace().check(&req));
}

#[test]
fn test_preds() {
    let r = request_with_method(Method::Trace);

    assert!(Not(Get()).check(&r));
    assert!(!Not(Trace()).check(&r));

    assert!(All(Trace()).and(Trace()).check(&r));
    assert!(!All(Get()).and(Trace()).check(&r));

    assert!(Any(Get()).or(Trace()).check(&r));
    assert!(!Any(Get()).or(Get()).check(&r));
}

#[test]
fn test_method_filter_exact() {
    let req = request_with_method(Method::Patch);
    assert!(webroute::filter::Method(Method::Patch).check(&req));
    assert!(!webroute::filter::Method(Method::Get).check(&req));
}

#[test]
fn test_nested_combinators() {
    let r = request_with_method(Method::Trace);
    // Any(All(Trace, Not(Get)), Post) matches a TRACE request.
    let inner = All(Trace()).and(Not(Get()));
    assert!(Any(inner).or(Post()).check(&r));
    // All(Any(Get, Post)) does not.
    assert!(!All(Any(Get()).or(Post())).check(&r));
}
