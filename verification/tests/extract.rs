use webroute::error::JsonPayloadError;
use webroute::error::UrlencodedError;
use webroute::extractor::bytes_extract;
use webroute::extractor::option_extract;
use webroute::extractor::pairs_get;
use webroute::extractor::result_extract;
use webroute::extractor::string_extract;
use webroute::extractor::BodyReader;
use webroute::extractor::FormConfig;
use webroute::extractor::JsonConfig;
use webroute::extractor::PayloadConfig;
use webroute::join::ExtractJoin;
use webroute::join::ExtractPoll;
use webroute::join::JoinStep;
use webroute::pattern::ResourcePattern;
use webroute::strutil::parse_u32;
use webroute::Form;
use webroute::HttpRequest;
use webroute::Json;
use webroute::Method;
use webroute::Path;
use webroute::Query;

fn form_request(body: &[u8]) -> HttpRequest {
    let mut req = HttpRequest::new(Method::Get, "/".to_string(), String::new());
    req.append_header(
        "content-type".to_string(),
        "application/x-www-form-urlencoded".to_string(),
    );
    req.set_body(body.to_vec());
    req
}

fn matched_request(pattern: &str, uri: &str) -> HttpRequest {
    let mut req = HttpRequest::with_uri(Method::Get, uri);
    let pattern = ResourcePattern::new(pattern);
    let path = req.path().clone();
    let params = pattern.match_path(path.as_str()).unwrap();
    req.set_params(params);
    req
}

#[test]
fn test_bytes() {
    let cfg = PayloadConfig::default();
    let mut req = HttpRequest::new(Method::Get, "/".to_string(), String::new());
    req.append_header("content-length".to_string(), "11".to_string());
    req.set_body(b"hello=world".to_vec());

    let body = bytes_extract(&req, &cfg).unwrap();
    assert_eq!(body, b"hello=world".to_vec());
}

#[test]
fn test_string() {
    let cfg = PayloadConfig::default();
    let mut req = HttpRequest::new(Method::Get, "/".to_string(), String::new());
    req.append_header("content-length".to_string(), "11".to_string());
    req.set_body(b"hello=world".to_vec());

    let s = string_extract(&req, &cfg).unwrap();
    assert_eq!(s, "hello=world");
}

#[test]
fn test_form() {
    let req = form_request(b"hello=world");
    let mut cfg = FormConfig::default();
    cfg.limit(4096);

    let form = Form::extract_field(&req, &cfg, "hello").unwrap();
    assert_eq!(form.into_inner(), "world");
}

#[test]
fn test_option() {
    let mut cfg = FormConfig::default();
    cfg.limit(4096);

    let req = form_request(b"");
    let r = option_extract(Form::extract_field(&req, &cfg, "hello"));
    assert!(r.is_none());

    let req = form_request(b"hello=world");
    let r = option_extract(Form::extract_field(&req, &cfg, "hello"));
    assert_eq!(r.unwrap().into_inner(), "world");

    let req = form_request(b"bye=world");
    let r = option_extract(Form::extract_field(&req, &cfg, "hello"));
    assert!(r.is_none());
}

#[test]
fn test_result() {
    let cfg = FormConfig::default();

    let req = form_request(b"hello=world");
    let r = result_extract(Form::extract_field(&req, &cfg, "hello"));
    assert_eq!(r.unwrap().into_inner(), "world");

    let req = form_request(b"bye=world");
    let r = result_extract(Form::extract_field(&req, &cfg, "hello"));
    assert!(r.is_err());
}

#[test]
fn test_payload_config() {
    let req = HttpRequest::new(Method::Get, "/".to_string(), String::new());
    let mut cfg = PayloadConfig::default();
    cfg.mimetype("application/json".to_string());
    assert!(cfg.check_mimetype(&req).is_err());

    let mut req = HttpRequest::new(Method::Get, "/".to_string(), String::new());
    req.append_header(
        "content-type".to_string(),
        "application/x-www-form-urlencoded".to_string(),
    );
    assert!(cfg.check_mimetype(&req).is_err());

    let mut req = HttpRequest::new(Method::Get, "/".to_string(), String::new());
    req.append_header("content-type".to_string(), "application/json".to_string());
    assert!(cfg.check_mimetype(&req).is_ok());
}

#[test]
fn test_request_extract() {
    let req = matched_request("/{key}/{value}/", "/name/user1/?id=test");

    let key = Path::extract_named(&req, "key").unwrap();
    assert_eq!(key.as_ref(), "name");
    let value = Path::extract_named(&req, "value").unwrap();
    assert_eq!(value.into_inner(), "user1");

    let pair = Path::extract_pair(&req).unwrap().into_inner();
    assert_eq!(pair.0, "name");
    assert_eq!(pair.1, "user1");

    let query = Query::extract(&req).unwrap().into_inner();
    assert_eq!(pairs_get(&query, "id").unwrap(), "test");

    let req = matched_request("/{key}/{value}/", "/name/32/");

    let key = Path::extract_named(&req, "key").unwrap();
    assert_eq!(key.into_inner(), "name");
    let value = Path::extract_index_u32(&req, 1).unwrap();
    assert_eq!(value.into_inner(), 32);

    let pair = Path::extract_pair(&req).unwrap().into_inner();
    assert_eq!(pair.0, "name");
    assert_eq!(parse_u32(pair.1.as_str()), Some(32));
    assert!(parse_u32(pair.1.as_str()).unwrap() <= u8::MAX as u32);

    let values = Path::extract(&req).into_inner();
    assert_eq!(values[0], "name".to_string());
    assert_eq!(values[1], "32".to_string());
}

#[test]
fn test_extract_path_single() {
    let req = matched_request("/{value}/", "/32/");
    let single = Path::extract_single(&req).unwrap();
    assert_eq!(single.as_ref(), "32");
    assert_eq!(Path::extract_index_u32(&req, 0).unwrap().into_inner(), 32);
}

#[test]
fn test_tuple_extract() {
    let req = matched_request("/{key}/{value}/", "/name/user1/?id=test");

    let pair = Path::extract_pair(&req).unwrap().into_inner();
    let mut join: ExtractJoin<(String, String)> = ExtractJoin::new(1);
    let polls: Vec<ExtractPoll<(String, String), ()>> = vec![ExtractPoll::Ready(pair)];
    match join.poll_cycle(polls) {
        JoinStep::Complete(items) => {
            assert_eq!(items[0].0, "name");
            assert_eq!(items[0].1, "user1");
        }
        _ => panic!("join should complete"),
    }

    let first = Path::extract_pair(&req).unwrap().into_inner();
    let second = Path::extract_pair(&req).unwrap().into_inner();
    let mut join: ExtractJoin<(String, String)> = ExtractJoin::new(2);
    let polls: Vec<ExtractPoll<(String, String), ()>> =
        vec![ExtractPoll::Ready(first), ExtractPoll::Ready(second)];
    match join.poll_cycle(polls) {
        JoinStep::Complete(items) => {
            assert_eq!(items[0].0, "name");
            assert_eq!(items[0].1, "user1");
            assert_eq!(items[1].0, "name");
            assert_eq!(items[1].1, "user1");
        }
        _ => panic!("join should complete"),
    }

    // Zero members: the join completes at once.
    let mut join: ExtractJoin<()> = ExtractJoin::new(0);
    let polls: Vec<ExtractPoll<(), ()>> = vec![];
    match join.poll_cycle(polls) {
        JoinStep::Complete(items) => assert_eq!(items.len(), 0),
        _ => panic!("empty join should complete"),
    }
}

#[test]
fn tuple_extract_keeps_declared_order() {
    // Member 1 completes before member 0; the result is still in declared
    // member order.
    let mut join: ExtractJoin<&str> = ExtractJoin::new(2);
    let cycle1: Vec<ExtractPoll<&str, ()>> =
        vec![ExtractPoll::Pending, ExtractPoll::Ready("value of b")];
    assert!(matches!(join.poll_cycle(cycle1), JoinStep::NotReady));
    let cycle2: Vec<ExtractPoll<&str, ()>> =
        vec![ExtractPoll::Ready("value of a"), ExtractPoll::Pending];
    match join.poll_cycle(cycle2) {
        JoinStep::Complete(items) => {
            assert_eq!(items, vec!["value of a", "value of b"]);
        }
        _ => panic!("join should complete"),
    }
}

#[test]
fn tuple_extract_first_failure_wins() {
    // Member 1 of three fails; the join fails with that member's error even
    // though members 0 and 2 would have succeeded.
    let mut join: ExtractJoin<u32> = ExtractJoin::new(3);
    let cycle: Vec<ExtractPoll<u32, &str>> = vec![
        ExtractPoll::Ready(1),
        ExtractPoll::Failed("second member error"),
        ExtractPoll::Ready(3),
    ];
    match join.poll_cycle(cycle) {
        JoinStep::Failed(e) => assert_eq!(e, "second member error"),
        _ => panic!("join should fail"),
    }
}

#[test]
fn tuple_extract_late_failure_keeps_nothing_visible() {
    // A member that completed in an earlier cycle stays stored, and a later
    // cycle's failure still fails the whole join.
    let mut join: ExtractJoin<&str> = ExtractJoin::new(2);
    let cycle1: Vec<ExtractPoll<&str, &str>> =
        vec![ExtractPoll::Ready("first"), ExtractPoll::Pending];
    assert!(matches!(join.poll_cycle(cycle1), JoinStep::NotReady));
    let cycle2: Vec<ExtractPoll<&str, &str>> =
        vec![ExtractPoll::Pending, ExtractPoll::Failed("late failure")];
    match join.poll_cycle(cycle2) {
        JoinStep::Failed(e) => assert_eq!(e, "late failure"),
        _ => panic!("join should fail"),
    }
}

#[test]
fn form_decodes_percent_and_plus() {
    let cfg = FormConfig::default();
    let req = form_request(b"hello=wor%20ld&greet=a+b");
    let pairs = Form::extract(&req, &cfg).unwrap().into_inner();
    assert_eq!(pairs_get(&pairs, "hello").unwrap(), "wor ld");
    assert_eq!(pairs_get(&pairs, "greet").unwrap(), "a b");
}

#[test]
fn form_error_variants() {
    let cfg = FormConfig::default();

    let mut req = HttpRequest::new(Method::Post, "/".to_string(), String::new());
    req.append_header("content-type".to_string(), "text/plain".to_string());
    req.set_body(b"hello=world".to_vec());
    assert_eq!(
        Form::extract(&req, &cfg).unwrap_err(),
        UrlencodedError::ContentType
    );

    let req = form_request(b"hello=world");
    let mut small = FormConfig::default();
    small.limit(4);
    assert_eq!(
        Form::extract(&req, &small).unwrap_err(),
        UrlencodedError::Overflow
    );

    // A required field the form lacks fails like an unparsable body.
    let req = form_request(b"bye=world");
    assert_eq!(
        Form::extract_field(&req, &cfg, "hello").unwrap_err(),
        UrlencodedError::Parse
    );
}

#[test]
fn json_extract_and_errors() {
    let mut cfg = JsonConfig::default();

    let mut req = HttpRequest::new(Method::Post, "/".to_string(), String::new());
    req.append_header("content-type".to_string(), "application/json".to_string());
    req.set_body(b"{\"name\":\"test\"}".to_vec());
    let value = Json::extract(&req, &cfg).unwrap().into_inner();
    assert_eq!(value["name"], "test");

    let resp = Json(value).respond_to(&req).unwrap();
    assert_eq!(resp.status(), 200);
    assert_eq!(
        resp.get_header("content-type").unwrap().as_str(),
        "application/json"
    );
    assert_eq!(resp.body().as_str(), "{\"name\":\"test\"}");

    let mut bad = HttpRequest::new(Method::Post, "/".to_string(), String::new());
    bad.append_header("content-type".to_string(), "text/plain".to_string());
    bad.set_body(b"{}".to_vec());
    assert_eq!(
        Json::extract(&bad, &cfg).unwrap_err(),
        JsonPayloadError::ContentType
    );

    let mut broken = HttpRequest::new(Method::Post, "/".to_string(), String::new());
    broken.append_header("content-type".to_string(), "application/json".to_string());
    broken.set_body(b"{oops".to_vec());
    assert_eq!(
        Json::extract(&broken, &cfg).unwrap_err(),
        JsonPayloadError::Deserialize
    );

    cfg.limit(4);
    assert_eq!(
        Json::extract(&req, &cfg).unwrap_err(),
        JsonPayloadError::Overflow
    );

    // A suffixed JSON media type also passes the content check.
    let mut suffixed = HttpRequest::new(Method::Post, "/".to_string(), String::new());
    suffixed.append_header(
        "content-type".to_string(),
        "application/ld+json".to_string(),
    );
    suffixed.set_body(b"[1,2]".to_vec());
    assert!(Json::extract(&suffixed, &JsonConfig::default()).is_ok());
}

#[test]
fn string_extract_charsets() {
    let cfg = PayloadConfig::default();

    // A latin-1 body decodes through the declared charset.
    let mut req = HttpRequest::new(Method::Post, "/".to_string(), String::new());
    req.append_header(
        "content-type".to_string(),
        "text/plain; charset=iso-8859-1".to_string(),
    );
    req.set_body(vec![0xE9u8]);
    assert_eq!(string_extract(&req, &cfg).unwrap(), "\u{e9}");

    // An upper-case UTF-8 label takes the UTF-8 path.
    let mut req = HttpRequest::new(Method::Post, "/".to_string(), String::new());
    req.append_header(
        "content-type".to_string(),
        "text/plain; charset=UTF-8".to_string(),
    );
    req.set_body("caf\u{e9}".as_bytes().to_vec());
    assert_eq!(string_extract(&req, &cfg).unwrap(), "caf\u{e9}");

    // An unknown charset is rejected.
    let mut req = HttpRequest::new(Method::Post, "/".to_string(), String::new());
    req.append_header(
        "content-type".to_string(),
        "text/plain; charset=bogus".to_string(),
    );
    req.set_body(b"x".to_vec());
    assert_eq!(string_extract(&req, &cfg).unwrap_err().status(), 400);

    // Bytes that are not valid UTF-8 fail the default path.
    let mut req = HttpRequest::new(Method::Post, "/".to_string(), String::new());
    req.set_body(vec![0xFFu8]);
    assert_eq!(string_extract(&req, &cfg).unwrap_err().status(), 400);

    // A latin-1 body without the charset declared fails as invalid UTF-8.
    let mut req = HttpRequest::new(Method::Post, "/".to_string(), String::new());
    req.set_body(vec![0xE9u8]);
    assert_eq!(string_extract(&req, &cfg).unwrap_err().status(), 400);
}

#[test]
fn bytes_extract_limit() {
    let mut cfg = PayloadConfig::default();
    cfg.limit(4);
    let mut req = HttpRequest::new(Method::Post, "/".to_string(), String::new());
    req.set_body(b"hello".to_vec());
    assert_eq!(bytes_extract(&req, &cfg).unwrap_err().status(), 413);
}

#[test]
fn body_reader_collects_up_to_limit() {
    let mut reader = BodyReader::new(8);
    assert!(reader.push_chunk(b"hell").is_ok());
    assert!(reader.push_chunk(b"o!").is_ok());
    let err = reader.push_chunk(b"overflow").unwrap_err();
    assert_eq!(err.status(), 413);
    assert_eq!(reader.finish(), b"hello!".to_vec());
}

#[test]
fn extraction_errors_to_boundary() {
    assert_eq!(UrlencodedError::ContentType.to_error().status(), 415);
    assert_eq!(UrlencodedError::Overflow.to_error().status(), 413);
    assert_eq!(UrlencodedError::Parse.to_error().status(), 400);
    assert_eq!(JsonPayloadError::ContentType.to_error().status(), 400);
    assert_eq!(JsonPayloadError::Overflow.to_error().status(), 413);
    assert_eq!(JsonPayloadError::Deserialize.to_error().status(), 400);
}

#[test]
fn parse_u32_edges() {
    assert_eq!(parse_u32("0"), Some(0));
    assert_eq!(parse_u32("32"), Some(32));
    assert_eq!(parse_u32(""), None);
    assert_eq!(parse_u32("12a"), None);
    assert_eq!(parse_u32("4294967295"), Some(u32::MAX));
    assert_eq!(parse_u32("4294967296"), None);
}

#[test]
fn query_decodes_percent() {
    let req = HttpRequest::with_uri(Method::Get, "/p?id=te%20st");
    let pairs = Query::extract(&req).unwrap().into_inner();
    assert_eq!(pairs_get(&pairs, "id").unwrap(), "te st");

    // An invalid percent escape is kept literally rather than rejected.
    let odd = HttpRequest::with_uri(Method::Get, "/p?id=%zz");
    let pairs = Query::extract(&odd).unwrap().into_inner();
    assert_eq!(pairs_get(&pairs, "id").unwrap(), "%zz");
}

#[test]
fn path_numeric_failure() {
    // A non-numeric segment fails numeric extraction with a not-found
    // class error.
    let req = matched_request("/{key}/{value}/", "/name/user1/");
    let err = Path::extract_index_u32(&req, 1).unwrap_err();
    assert_eq!(err.status(), 404);
}
