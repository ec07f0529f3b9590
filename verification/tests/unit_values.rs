//! Unit tests for the value model, the errors and the codecs.

use finchers::app::{fmt_i64, DefaultResponder};
use finchers::codec::parse_i64;
use finchers::error::{BadRequest, NoRoute, NotPresent, ServerError};
use finchers::output::{combine, Preflight, Val};

#[test]
fn combine_keeps_left_then_right_order() {
    let left = vec![Val::Int(1), Val::Int(2)];
    let right = vec![Val::Int(3)];
    assert_eq!(
        combine(left, right),
        vec![Val::Int(1), Val::Int(2), Val::Int(3)]
    );
}

#[test]
fn preflight_observers() {
    let c: Preflight<u8> = Preflight::Completed(7);
    assert!(c.is_completed());
    assert!(!c.is_incomplete());
    let i: Preflight<u8> = Preflight::Incomplete;
    assert!(i.is_incomplete());
    let mapped = c.map(|x| x + 1);
    assert!(mapped.is_completed());
    match mapped {
        Preflight::Completed(v) => assert_eq!(v, 8),
        Preflight::Incomplete => panic!("expected a completed value"),
    }
}

#[test]
fn error_status_codes() {
    assert_eq!(BadRequest::new(String::from("x")).status_code(), 400);
    assert_eq!(ServerError::new(String::from("x")).status_code(), 500);
    assert_eq!(NotPresent::new(String::from("x")).status_code(), 400);
    assert_eq!(NoRoute::new().status_code(), 404);
    let e = BadRequest::new(String::from("x")).into_error();
    assert!(!e.is_advisory());
    let e = NotPresent::new(String::from("x")).into_error();
    assert!(e.is_advisory());
    assert_eq!(finchers::action::stolen_payload().status_code(), 500);
}

#[test]
fn parse_i64_accepts_signs_and_bounds() {
    assert_eq!(parse_i64(&b"42".to_vec()), Some(42));
    assert_eq!(parse_i64(&b"+42".to_vec()), Some(42));
    assert_eq!(parse_i64(&b"-42".to_vec()), Some(-42));
    assert_eq!(parse_i64(&b"9223372036854775807".to_vec()), Some(i64::MAX));
    assert_eq!(parse_i64(&b"-9223372036854775808".to_vec()), Some(i64::MIN));
    assert_eq!(parse_i64(&b"9223372036854775808".to_vec()), None);
    assert_eq!(parse_i64(&b"99999999999999999999999".to_vec()), None);
    assert_eq!(parse_i64(&b"".to_vec()), None);
    assert_eq!(parse_i64(&b"-".to_vec()), None);
    assert_eq!(parse_i64(&b"4a".to_vec()), None);
}

#[test]
fn integers_render_in_decimal() {
    assert_eq!(fmt_i64(0), b"0".to_vec());
    assert_eq!(fmt_i64(451), b"451".to_vec());
    assert_eq!(fmt_i64(-42), b"-42".to_vec());
    assert_eq!(fmt_i64(i64::MIN), b"-9223372036854775808".to_vec());
}

#[test]
fn debug_responder_renders_the_value() {
    let resp = finchers::app::Debug::new(Val::Int(-42)).pretty(true).respond();
    assert_eq!(resp.status, 200);
    assert_eq!(resp.body, b"-42".to_vec());
}

#[test]
fn default_responder_maps_errors_to_their_status() {
    let r = DefaultResponder::new().respond(Err(NoRoute::new().into_error()));
    assert_eq!(r.status, 404);
    let r = DefaultResponder::new().respond(Ok(vec![Val::Int(7), Val::Text(String::from("x"))]));
    assert_eq!(r.status, 200);
    assert_eq!(r.body, b"7x".to_vec());
}
