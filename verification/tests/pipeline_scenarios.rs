//! End-to-end pipeline scenarios over the out-of-the-box gateway.

use gateway::config::standard_gateway;
use gateway::headers::HeaderMap;
use gateway::pipeline::{Admission, RelayOutcome, Request};

fn request(method: &[u8], path: &[u8], auth: Option<&[u8]>) -> Request {
    let mut headers = HeaderMap::new();
    if let Some(value) = auth {
        headers.push_header(b"Authorization".to_vec(), value.to_vec());
    }
    Request {
        method: method.to_vec(),
        path: path.to_vec(),
        client: b"127.0.0.1:54321".to_vec(),
        headers,
    }
}

fn upstream_response() -> HeaderMap {
    let mut h = HeaderMap::new();
    h.push_header(b"content-type".to_vec(), b"text/plain".to_vec());
    h.push_header(b"alt-svc".to_vec(), b"h3=\":443\"".to_vec());
    h
}

#[test]
fn login_without_credentials_is_rejected() {
    let mut gw = standard_gateway().unwrap();
    assert_eq!(gw.metric.current(), 0);
    let req = request(b"GET", b"/login", None);
    // The pipeline's early exit: rejected before any routing, so the record
    // and response cannot depend on how a relay would have gone.
    assert!(gw.request_filter(&req));
    let (rec, response) = gw.handle(
        req,
        RelayOutcome::Completed { status: 200, headers: upstream_response() },
    );
    assert_eq!(rec.status, 403);
    assert_eq!(rec.method, b"GET".to_vec());
    assert_eq!(rec.path, b"/login".to_vec());
    assert!(response.is_none());
    assert_eq!(gw.metric.current(), 1);
}

#[test]
fn login_with_wrong_secret_is_rejected() {
    let mut gw = standard_gateway().unwrap();
    let req = request(b"GET", b"/login", Some(b"guess"));
    let (rec, response) = gw.handle(req, RelayOutcome::Aborted);
    assert_eq!(rec.status, 403);
    assert!(response.is_none());
    assert_eq!(gw.metric.current(), 1);
}

#[test]
fn user_service_with_correct_secret_is_routed_and_rewritten() {
    let mut gw = standard_gateway().unwrap();
    let req = request(b"GET", b"/user-service/profile", Some(b"password"));
    assert!(!gw.request_filter(&req));
    let peer = gw.upstream_peer(&req);
    assert_eq!(peer.host, "127.0.0.1");
    assert_eq!(peer.port, 8080);
    match gw.decide(&req) {
        Admission::Forward { target } => assert_eq!(target.port, 8080),
        Admission::Reject { .. } => panic!("expected a forward"),
    }
    let (rec, response) = gw.handle(
        req,
        RelayOutcome::Completed { status: 200, headers: upstream_response() },
    );
    assert_eq!(rec.status, 200);
    let response = response.unwrap();
    assert_eq!(response.get(&b"server".to_vec()), Some(&b"MyGateway".to_vec()));
    assert!(!response.contains(&b"alt-svc".to_vec()));
    assert_eq!(response.get(&b"content-type".to_vec()), Some(&b"text/plain".to_vec()));
    assert_eq!(gw.metric.current(), 1);
}

#[test]
fn unprotected_path_passes_whatever_the_headers() {
    let mut gw = standard_gateway().unwrap();
    let req = request(b"GET", b"/otp-service/send", Some(b"totally-wrong"));
    assert!(!gw.request_filter(&req));
    let peer = gw.upstream_peer(&req);
    assert_eq!(peer.port, 8081);
    let (rec, _) = gw.handle(
        req,
        RelayOutcome::Completed { status: 204, headers: HeaderMap::new() },
    );
    assert_eq!(rec.status, 204);
}

#[test]
fn aborted_relay_still_yields_one_record_with_sentinel_status() {
    let mut gw = standard_gateway().unwrap();
    let req = request(b"POST", b"/unknown", None);
    let (rec, response) = gw.handle(req, RelayOutcome::Aborted);
    assert_eq!(rec.status, 0);
    assert_eq!(rec.method, b"POST".to_vec());
    assert!(response.is_none());
    assert_eq!(gw.metric.current(), 1);
}

#[test]
fn every_terminated_invocation_yields_exactly_one_record() {
    let mut gw = standard_gateway().unwrap();
    let batch = vec![
        (request(b"GET", b"/login", None), RelayOutcome::Aborted),
        (
            request(b"GET", b"/user-service/a", Some(b"password")),
            RelayOutcome::Completed { status: 201, headers: upstream_response() },
        ),
        (request(b"GET", b"/x", None), RelayOutcome::Aborted),
    ];
    let records = gw.handle_all(batch);
    assert_eq!(records.len(), 3);
    assert_eq!(records[0].status, 403);
    assert_eq!(records[1].status, 201);
    assert_eq!(records[2].status, 0);
    assert_eq!(gw.metric.current(), 3);
}

#[test]
fn counter_grows_by_exactly_the_number_of_requests() {
    let mut gw = standard_gateway().unwrap();
    let before = gw.metric.current();
    let mut batch = Vec::new();
    let mut i = 0;
    while i < 25 {
        batch.push((request(b"GET", b"/x", None), RelayOutcome::Aborted));
        i += 1;
    }
    gw.handle_all(batch);
    assert_eq!(gw.metric.current(), before + 25);
}
