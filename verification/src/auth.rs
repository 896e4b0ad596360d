//! The credential check: a request is authorized exactly when its
//! authorization header is present and byte-equal to the configured secret.
//! The comparison is plain byte equality, as the behaviour it preserves
//! prescribes; it is not constant-time.

use vstd::prelude::*;

use crate::bytes::bytes_eq;
use crate::headers::{lookup, HeaderFields, HeaderMap};

verus! {

/// The name of the header that carries the credential, "authorization".
pub open spec fn auth_header_name_spec() -> Seq<u8> {
    seq![
        'a' as u8,
        'u' as u8,
        't' as u8,
        'h' as u8,
        'o' as u8,
        'r' as u8,
        'i' as u8,
        'z' as u8,
        'a' as u8,
        't' as u8,
        'i' as u8,
        'o' as u8,
        'n' as u8,
    ]
}

pub fn auth_header_name() -> (v: Vec<u8>)
    ensures
        v@ == auth_header_name_spec(),
{
    let mut v: Vec<u8> = Vec::new();
    v.push('a' as u8);
    v.push('u' as u8);
    v.push('t' as u8);
    v.push('h' as u8);
    v.push('o' as u8);
    v.push('r' as u8);
    v.push('i' as u8);
    v.push('z' as u8);
    v.push('a' as u8);
    v.push('t' as u8);
    v.push('i' as u8);
    v.push('o' as u8);
    v.push('n' as u8);
    proof {
        assert(v@ =~= auth_header_name_spec());
    }
    v
}

/// The caller is authorized exactly when the authorization header is present
/// and its value equals the secret byte for byte.
pub open spec fn check_spec(h: HeaderFields, secret: Seq<u8>) -> bool {
    lookup(h, auth_header_name_spec()) == Some(secret)
}

/// Decide whether the request headers carry the secret.
pub fn check_credentials(headers: &HeaderMap, secret: &Vec<u8>) -> (r: bool)
    ensures
        r == check_spec(headers@, secret@),
{
    let name = auth_header_name();
    match headers.get(&name) {
        Some(v) => bytes_eq(v, secret),
        None => false,
    }
}

} // verus!
