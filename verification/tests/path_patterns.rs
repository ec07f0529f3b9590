//! Tests for parsing path patterns and matching them against requests.

use finchers::cursor::PreflightContext;
use finchers::path::{path, MatchPath, MatchPathKind, ParseMatchError};
use finchers::request::{Method, Request};

fn ctx(path_str: &str) -> PreflightContext {
    let req = Request::new(Method::Get, path_str.as_bytes().to_vec(), Vec::new());
    PreflightContext::new(req)
}

#[test]
fn test_match_single_segment() {
    assert_eq!(
        MatchPath::from_str("foo").map(|m| m.kind().clone()),
        Ok(MatchPathKind::Segments(vec![b"foo".to_vec()]))
    );
}

#[test]
fn test_match_multi_segments() {
    assert_eq!(
        MatchPath::from_str("foo/bar").map(|m| m.kind().clone()),
        Ok(MatchPathKind::Segments(vec![b"foo".to_vec(), b"bar".to_vec()]))
    );
}

#[test]
fn test_match_all_segments() {
    assert_eq!(
        MatchPath::from_str("*").map(|m| m.kind().clone()),
        Ok(MatchPathKind::AllSegments)
    );
}

#[test]
fn test_match_failure_empty() {
    assert_eq!(
        MatchPath::from_str("").map(|m| m.kind().clone()),
        Err(ParseMatchError::EmptyString)
    );
}

#[test]
fn test_match_failure_empty_2() {
    assert_eq!(
        MatchPath::from_str("foo//bar").map(|m| m.kind().clone()),
        Err(ParseMatchError::EmptyString)
    );
}

#[test]
fn pattern_segments_are_percent_encoded_once() {
    assert_eq!(
        MatchPath::from_str("a b/c?d").map(|m| m.kind().clone()),
        Ok(MatchPathKind::Segments(vec![b"a%20b".to_vec(), b"c%3Fd".to_vec()]))
    );
}

#[test]
fn pattern_trims_outer_slashes() {
    assert_eq!(
        MatchPath::from_str("/foo/bar/").map(|m| m.kind().clone()),
        Ok(MatchPathKind::Segments(vec![b"foo".to_vec(), b"bar".to_vec()]))
    );
}

#[test]
fn literal_match_succeeds_on_prefix() {
    let mp = path("foo");
    let mut cx = ctx("/foo/bar");
    match mp.kind() {
        MatchPathKind::Segments(pat) => {
            assert!(finchers::path::match_literals(&mut cx, pat).is_ok());
        }
        MatchPathKind::AllSegments => panic!("expected literal segments"),
    }
    assert_eq!(cx.remaining_path(), b"bar".to_vec());
    assert_eq!(cx.num_popped_segments(), 1);
}

#[test]
fn literal_match_rewinds_on_mismatch() {
    let mp = path("foo/baz");
    let mut cx = ctx("/foo/bar");
    match mp.kind() {
        MatchPathKind::Segments(pat) => {
            let r = finchers::path::match_literals(&mut cx, pat);
            assert!(r.is_err());
            let e = r.err().unwrap();
            assert!(e.is_advisory());
            assert_eq!(e.status_code(), 404);
        }
        MatchPathKind::AllSegments => panic!("expected literal segments"),
    }
    assert_eq!(cx.remaining_path(), b"foo/bar".to_vec());
    assert_eq!(cx.num_popped_segments(), 0);
}

#[test]
fn test_segments() {
    let request = Request::new(Method::Get, b"/foo/bar.txt".to_vec(), Vec::new());
    let mut ecx = PreflightContext::new(request);

    assert_eq!(ecx.remaining_path(), b"foo/bar.txt".to_vec());
    assert_eq!(ecx.next_segment(), Some(b"foo".to_vec()));
    assert_eq!(ecx.remaining_path(), b"bar.txt".to_vec());
    assert_eq!(ecx.next_segment(), Some(b"bar.txt".to_vec()));
    assert_eq!(ecx.remaining_path(), b"".to_vec());
    assert!(ecx.next_segment().is_none());
    assert_eq!(ecx.remaining_path(), b"".to_vec());
    assert!(ecx.next_segment().is_none());
}

#[test]
fn test_segments_from_root_path() {
    let request = Request::new(Method::Get, b"/".to_vec(), Vec::new());
    let mut ecx = PreflightContext::new(request);

    assert_eq!(ecx.remaining_path(), b"".to_vec());
    assert!(ecx.next_segment().is_none());
}
