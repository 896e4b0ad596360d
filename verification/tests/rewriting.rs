//! The response rewriter: the identity header is forced, the stripped header
//! removed, everything else kept, and the whole transform is idempotent.

use gateway::headers::HeaderMap;
use gateway::rewrite::rewrite_response;

fn names(h: &HeaderMap) -> Vec<Vec<u8>> {
    let mut out = Vec::new();
    let mut i = 0;
    while i < h.len() {
        out.push(h.name_at(i).clone());
        i += 1;
    }
    out
}

fn pairs(h: &HeaderMap) -> Vec<(Vec<u8>, Vec<u8>)> {
    let mut out = Vec::new();
    let mut i = 0;
    while i < h.len() {
        out.push((h.name_at(i).clone(), h.value_at(i).clone()));
        i += 1;
    }
    out
}

#[test]
fn sets_identity_when_upstream_sent_neither() {
    let mut h = HeaderMap::new();
    h.push_header(b"content-type".to_vec(), b"text/html".to_vec());
    rewrite_response(&mut h);
    assert_eq!(
        pairs(&h),
        vec![
            (b"content-type".to_vec(), b"text/html".to_vec()),
            (b"Server".to_vec(), b"MyGateway".to_vec()),
        ]
    );
}

#[test]
fn overwrites_upstream_server_header() {
    let mut h = HeaderMap::new();
    h.push_header(b"server".to_vec(), b"nginx".to_vec());
    h.push_header(b"content-length".to_vec(), b"42".to_vec());
    rewrite_response(&mut h);
    assert_eq!(
        pairs(&h),
        vec![
            (b"content-length".to_vec(), b"42".to_vec()),
            (b"Server".to_vec(), b"MyGateway".to_vec()),
        ]
    );
}

#[test]
fn strips_alt_svc_whatever_its_case() {
    let mut h = HeaderMap::new();
    h.push_header(b"Alt-Svc".to_vec(), b"h3=\":443\"".to_vec());
    h.push_header(b"alt-svc".to_vec(), b"h2=\":443\"".to_vec());
    h.push_header(b"date".to_vec(), b"now".to_vec());
    rewrite_response(&mut h);
    assert_eq!(
        pairs(&h),
        vec![(b"date".to_vec(), b"now".to_vec()), (b"Server".to_vec(), b"MyGateway".to_vec())]
    );
}

#[test]
fn handles_both_present_at_once() {
    let mut h = HeaderMap::new();
    h.push_header(b"SERVER".to_vec(), b"apache".to_vec());
    h.push_header(b"alt-svc".to_vec(), b"h3".to_vec());
    rewrite_response(&mut h);
    assert_eq!(pairs(&h), vec![(b"Server".to_vec(), b"MyGateway".to_vec())]);
}

#[test]
fn untouched_headers_keep_their_order() {
    let mut h = HeaderMap::new();
    h.push_header(b"a".to_vec(), b"1".to_vec());
    h.push_header(b"b".to_vec(), b"2".to_vec());
    h.push_header(b"c".to_vec(), b"3".to_vec());
    rewrite_response(&mut h);
    assert_eq!(names(&h), vec![b"a".to_vec(), b"b".to_vec(), b"c".to_vec(), b"Server".to_vec()]);
}

#[test]
fn rewriting_twice_equals_rewriting_once() {
    let mut once = HeaderMap::new();
    once.push_header(b"server".to_vec(), b"nginx".to_vec());
    once.push_header(b"alt-svc".to_vec(), b"h3".to_vec());
    once.push_header(b"etag".to_vec(), b"xyz".to_vec());
    rewrite_response(&mut once);
    let mut twice = HeaderMap::new();
    twice.push_header(b"server".to_vec(), b"nginx".to_vec());
    twice.push_header(b"alt-svc".to_vec(), b"h3".to_vec());
    twice.push_header(b"etag".to_vec(), b"xyz".to_vec());
    rewrite_response(&mut twice);
    rewrite_response(&mut twice);
    assert_eq!(pairs(&once), pairs(&twice));
}
