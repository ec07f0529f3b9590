//! End-to-end scenarios: combinator trees driven against whole requests.

use finchers::app::App;
use finchers::body::{Body, BodyStep};
use finchers::endpoint::{json, param, raw, text, urlencoded, Endpoint};
use finchers::output::{Transform, Val};
use finchers::path::path;
use finchers::request::{Method, Request};

fn get(path_str: &str) -> Request {
    Request::new(Method::Get, path_str.as_bytes().to_vec(), Vec::new())
}

fn with_ct(method: Method, path_str: &str, ct: &str) -> Request {
    Request::new(
        method,
        path_str.as_bytes().to_vec(),
        vec![(b"content-type".to_vec(), ct.as_bytes().to_vec())],
    )
}

fn posts_param() -> Endpoint {
    path("posts").into_endpoint().and(param().into_endpoint())
}

#[test]
fn matching_request_extracts_the_parameter() {
    let app = App::new(posts_param());
    let out = app.run(get("/posts/42"), Body::empty());
    assert_eq!(out.unwrap(), vec![Val::Int(42)]);
}

#[test]
fn param_conversion_failure_is_advisory() {
    let app = App::new(posts_param());
    let out = app.run(get("/posts/abc"), Body::empty());
    let e = out.err().unwrap();
    assert!(e.is_advisory());
    assert_eq!(e.status_code(), 400);
}

#[test]
fn literal_mismatch_becomes_not_found() {
    let app = App::new(posts_param());
    let out = app.run(get("/users/42"), Body::empty());
    let e = out.err().unwrap();
    assert!(e.is_advisory());
    assert_eq!(e.status_code(), 404);
    let resp = App::new(posts_param()).dispatch(get("/users/42"), Body::empty());
    assert_eq!(resp.status, 404);
}

#[test]
fn and_runs_left_to_right() {
    let e = param().into_endpoint().and(param().into_endpoint());
    let out = App::new(e).run(get("/1/2"), Body::empty());
    assert_eq!(out.unwrap(), vec![Val::Int(1), Val::Int(2)]);
}

#[test]
fn and_fails_when_left_fails() {
    let e = path("a").into_endpoint().and(param().into_endpoint());
    let out = App::new(e).run(get("/b/42"), Body::empty());
    let e = out.err().unwrap();
    assert!(e.is_advisory());
    assert_eq!(e.status_code(), 404);
}

#[test]
fn or_falls_through_to_the_right_branch() {
    let e = path("a")
        .into_endpoint()
        .and(param().into_endpoint())
        .or(path("b").into_endpoint().and(param().into_endpoint()));
    let out = App::new(e).run(get("/b/7"), Body::empty());
    assert_eq!(out.unwrap(), vec![Val::Tag(false), Val::Int(7)]);
}

#[test]
fn or_prefers_the_left_branch() {
    let e = param()
        .into_endpoint()
        .or(param().into_endpoint().map(Transform::Count));
    let out = App::new(e).run(get("/5"), Body::empty());
    assert_eq!(out.unwrap(), vec![Val::Tag(true), Val::Int(5)]);
}

#[test]
fn or_strict_returns_the_winner_unwrapped() {
    let e = path("a")
        .into_endpoint()
        .and(param().into_endpoint())
        .or_strict(path("b").into_endpoint().and(param().into_endpoint()));
    let out = App::new(e).run(get("/b/7"), Body::empty());
    assert_eq!(out.unwrap(), vec![Val::Int(7)]);
}

#[test]
fn or_aborts_on_hard_error_without_trying_the_right_branch() {
    let e = json().into_endpoint().or(text().into_endpoint());
    let req = with_ct(Method::Post, "/", "text/plain");
    let out = App::new(e).run(req, Body::from_bytes(b"{}".to_vec()));
    let e = out.err().unwrap();
    assert!(!e.is_advisory());
    assert_eq!(e.status_code(), 400);
}

#[test]
fn map_applies_once_during_preflight() {
    let e = param().into_endpoint().map(Transform::Head);
    let out = App::new(e).run(get("/9"), Body::empty());
    assert_eq!(out.unwrap(), vec![Val::Int(9)]);
}

#[test]
fn map_applies_once_during_poll() {
    let e = text().into_endpoint().map(Transform::Count);
    let req = Request::new(Method::Post, b"/".to_vec(), Vec::new());
    let out = App::new(e).run(req, Body::from_bytes(b"hello".to_vec()));
    assert_eq!(out.unwrap(), vec![Val::Int(1)]);
}

#[test]
fn and_then_refines_in_the_poll_phase() {
    let e = text()
        .into_endpoint()
        .and_then(finchers::output::Refine::ParseInt);
    let req = Request::new(Method::Post, b"/".to_vec(), Vec::new());
    let out = App::new(e).run(req, Body::from_bytes(b"451".to_vec()));
    assert_eq!(out.unwrap(), vec![Val::Int(451)]);
}

#[test]
fn and_then_failure_is_terminal() {
    let e = text()
        .into_endpoint()
        .and_then(finchers::output::Refine::ParseInt);
    let req = Request::new(Method::Post, b"/".to_vec(), Vec::new());
    let out = App::new(e).run(req, Body::from_bytes(b"not a number".to_vec()));
    let e = out.err().unwrap();
    assert!(!e.is_advisory());
    assert_eq!(e.status_code(), 400);
}

#[test]
fn taking_the_body_twice_is_a_terminal_error() {
    let e = raw().into_endpoint().and(raw().into_endpoint());
    let req = Request::new(Method::Post, b"/".to_vec(), Vec::new());
    let out = App::new(e).run(req, Body::from_bytes(b"payload".to_vec()));
    let e = out.err().unwrap();
    assert!(!e.is_advisory());
    assert_eq!(e.status_code(), 500);
}

#[test]
fn raw_hands_out_the_body_handle() {
    let e = raw().into_endpoint();
    let req = Request::new(Method::Post, b"/".to_vec(), Vec::new());
    let body = Body::from_bytes(b"payload".to_vec());
    let out = App::new(e).run(req, body);
    match out.unwrap().as_slice() {
        [Val::Stream(b)] => {
            assert_eq!(b.steps, vec![BodyStep::Data(b"payload".to_vec())]);
        }
        other => panic!("unexpected output: {:?}", other),
    }
}

#[test]
fn receive_all_collects_chunks_across_pending_polls() {
    let e = finchers::endpoint::receive_all().into_endpoint();
    let req = Request::new(Method::Post, b"/".to_vec(), Vec::new());
    let body = Body::new(vec![
        BodyStep::Data(b"he".to_vec()),
        BodyStep::NotReady,
        BodyStep::Data(b"llo".to_vec()),
    ]);
    let out = App::new(e).run(req, body);
    assert_eq!(out.unwrap(), vec![Val::Bytes(b"hello".to_vec())]);
}

#[test]
fn json_rejects_a_plain_text_content_type() {
    let e = json().into_endpoint();
    let req = with_ct(Method::Post, "/", "text/plain");
    let out = App::new(e).run(req, Body::from_bytes(b"{\"a\":1}".to_vec()));
    let e = out.err().unwrap();
    assert!(!e.is_advisory());
    assert_eq!(e.status_code(), 400);
}

#[test]
fn json_rejects_a_missing_content_type() {
    let e = json().into_endpoint();
    let req = Request::new(Method::Post, b"/".to_vec(), Vec::new());
    let out = App::new(e).run(req, Body::from_bytes(b"{}".to_vec()));
    assert_eq!(out.err().unwrap().status_code(), 400);
}

#[test]
fn json_accepts_a_well_formed_document() {
    let e = json().into_endpoint();
    let req = with_ct(Method::Post, "/", "application/json");
    let out = App::new(e).run(req, Body::from_bytes(b"{\"a\":1}".to_vec()));
    assert_eq!(out.unwrap(), vec![Val::Json(b"{\"a\":1}".to_vec())]);
}

#[test]
fn json_parse_failure_is_hard_after_draining() {
    let e = json().into_endpoint();
    let req = with_ct(Method::Post, "/", "application/json");
    let out = App::new(e).run(req, Body::from_bytes(b"{\"a\":".to_vec()));
    let e = out.err().unwrap();
    assert!(!e.is_advisory());
    assert_eq!(e.status_code(), 400);
}

#[test]
fn json_content_type_matches_case_insensitively() {
    let e = json().into_endpoint();
    let req = with_ct(Method::Post, "/", "Application/Json");
    let out = App::new(e).run(req, Body::from_bytes(b"[1,2]".to_vec()));
    assert_eq!(out.unwrap(), vec![Val::Json(b"[1,2]".to_vec())]);
}

#[test]
fn json_rejects_a_content_type_with_parameters() {
    let e = json().into_endpoint();
    let req = with_ct(Method::Post, "/", "application/json; charset=utf-8");
    let out = App::new(e).run(req, Body::from_bytes(b"{}".to_vec()));
    assert_eq!(out.err().unwrap().status_code(), 400);
}

#[test]
fn text_decodes_utf8() {
    let e = text().into_endpoint();
    let req = with_ct(Method::Post, "/", "text/plain; charset=utf-8");
    let out = App::new(e).run(req, Body::from_bytes("héllo".as_bytes().to_vec()));
    assert_eq!(out.unwrap(), vec![Val::Text(String::from("héllo"))]);
}

#[test]
fn text_rejects_invalid_utf8() {
    let e = text().into_endpoint();
    let req = Request::new(Method::Post, b"/".to_vec(), Vec::new());
    let out = App::new(e).run(req, Body::from_bytes(vec![0xff, 0xfe]));
    assert_eq!(out.err().unwrap().status_code(), 400);
}

#[test]
fn text_rejects_a_foreign_charset() {
    let e = text().into_endpoint();
    let req = with_ct(Method::Post, "/", "text/plain; charset=latin-1");
    let out = App::new(e).run(req, Body::from_bytes(b"abc".to_vec()));
    let e = out.err().unwrap();
    assert!(!e.is_advisory());
    assert_eq!(e.status_code(), 400);
}

#[test]
fn urlencoded_accepts_a_flat_document() {
    let e = urlencoded().into_endpoint();
    let req = with_ct(Method::Post, "/", "application/x-www-form-urlencoded");
    let out = App::new(e).run(req, Body::from_bytes(b"a=1&b=two".to_vec()));
    assert_eq!(out.unwrap(), vec![Val::Form(b"a=1&b=two".to_vec())]);
}

#[test]
fn urlencoded_rejects_a_nested_document() {
    let e = urlencoded().into_endpoint();
    let req = with_ct(Method::Post, "/", "application/x-www-form-urlencoded");
    let out = App::new(e).run(req, Body::from_bytes(b"a[b]=1".to_vec()));
    let e = out.err().unwrap();
    assert!(!e.is_advisory());
    assert_eq!(e.status_code(), 400);
}

#[test]
fn wildcard_pattern_consumes_everything() {
    let e = path("foo").into_endpoint().and(path("*").into_endpoint());
    assert!(App::new(e).run(get("/foo/bar/baz"), Body::empty()).is_ok());
    let e2 = path("foo").into_endpoint().and(path("*").into_endpoint());
    assert!(App::new(e2).run(get("/bar"), Body::empty()).is_err());
}

#[test]
fn method_precheck_gates_the_route() {
    let e = finchers::endpoint::before_apply(finchers::action::Precheck::Method(Method::Post))
        .wrap(param().into_endpoint());
    let out = App::new(e).run(get("/1"), Body::empty());
    let e = out.err().unwrap();
    assert!(e.is_advisory());
    assert_eq!(e.status_code(), 404);
}

#[test]
fn left_keeps_only_the_left_output() {
    let e = param().into_endpoint().left(path("tail").into_endpoint());
    let out = App::new(e).run(get("/8/tail"), Body::empty());
    assert_eq!(out.unwrap(), vec![Val::Int(8)]);
}

#[test]
fn with_keeps_only_the_right_output() {
    let e = path("head").into_endpoint().with(param().into_endpoint());
    let out = App::new(e).run(get("/head/8"), Body::empty());
    assert_eq!(out.unwrap(), vec![Val::Int(8)]);
}

#[test]
fn body_stream_behaves_like_raw() {
    let e = finchers::endpoint::body_stream();
    let req = Request::new(Method::Post, b"/".to_vec(), Vec::new());
    let out = App::new(e).run(req, Body::from_bytes(b"x".to_vec()));
    match out.unwrap().as_slice() {
        [Val::Stream(_)] => {}
        other => panic!("unexpected output: {:?}", other),
    }
}

#[test]
fn compile_test_choice() {
    #[allow(unused_variables)]
    let e1 = path("foo").into_endpoint();
    let e2 = e1
        .or(path("bar").into_endpoint())
        .or(path("baz").into_endpoint());
    #[allow(unused_variables)]
    let e3 = path("foobar").into_endpoint().or(e2);
}
