//! The credential check: presence and exact byte equality of the
//! authorization header, with a case-insensitive header name.

use gateway::auth::check_credentials;
use gateway::headers::HeaderMap;

fn headers_with(name: &[u8], value: &[u8]) -> HeaderMap {
    let mut h = HeaderMap::new();
    h.push_header(name.to_vec(), value.to_vec());
    h
}

#[test]
fn missing_header_is_denied() {
    let h = HeaderMap::new();
    assert!(!check_credentials(&h, &b"password".to_vec()));
}

#[test]
fn exact_secret_is_allowed() {
    let h = headers_with(b"authorization", b"password");
    assert!(check_credentials(&h, &b"password".to_vec()));
}

#[test]
fn header_name_is_case_insensitive() {
    let h = headers_with(b"Authorization", b"password");
    assert!(check_credentials(&h, &b"password".to_vec()));
    let h = headers_with(b"AUTHORIZATION", b"password");
    assert!(check_credentials(&h, &b"password".to_vec()));
}

#[test]
fn wrong_secret_is_denied() {
    let h = headers_with(b"authorization", b"letmein");
    assert!(!check_credentials(&h, &b"password".to_vec()));
}

#[test]
fn prefix_of_secret_is_denied() {
    let h = headers_with(b"authorization", b"passwor");
    assert!(!check_credentials(&h, &b"password".to_vec()));
    let h = headers_with(b"authorization", b"passwords");
    assert!(!check_credentials(&h, &b"password".to_vec()));
}

#[test]
fn whitespace_difference_is_denied() {
    let h = headers_with(b"authorization", b"password ");
    assert!(!check_credentials(&h, &b"password".to_vec()));
    let h = headers_with(b"authorization", b" password");
    assert!(!check_credentials(&h, &b"password".to_vec()));
}

#[test]
fn secret_value_is_case_sensitive() {
    // Only the header name folds case; the value is compared as raw bytes.
    let h = headers_with(b"authorization", b"Password");
    assert!(!check_credentials(&h, &b"password".to_vec()));
}

#[test]
fn first_matching_header_decides() {
    let mut h = HeaderMap::new();
    h.push_header(b"authorization".to_vec(), b"wrong".to_vec());
    h.push_header(b"authorization".to_vec(), b"password".to_vec());
    assert!(!check_credentials(&h, &b"password".to_vec()));
}
