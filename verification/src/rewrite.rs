//! Response rewriting: every proxied response gets the gateway's identity
//! header forced to a fixed value, and one fixed upstream header stripped.
//! No other header is touched.

use vstd::prelude::*;

use crate::bytes::{lower, names_match};
use crate::headers::{
    contains_name, lemma_contains_name_iff, lemma_contains_push, lemma_lookup_push_absent,
    lemma_strip_absent,
    lemma_strip_id_when_absent, lemma_strip_preserves_absent, lemma_strip_push, lookup, strip,
    HeaderFields, HeaderMap,
};

verus! {

/// The identity header's name, "Server".
pub open spec fn identity_name_spec() -> Seq<u8> {
    seq!['S' as u8, 'e' as u8, 'r' as u8, 'v' as u8, 'e' as u8, 'r' as u8]
}

/// The identity header's fixed value, "MyGateway".
pub open spec fn identity_value_spec() -> Seq<u8> {
    seq![
        'M' as u8,
        'y' as u8,
        'G' as u8,
        'a' as u8,
        't' as u8,
        'e' as u8,
        'w' as u8,
        'a' as u8,
        'y' as u8,
    ]
}

/// The name of the upstream header that is always removed, "alt-svc".
pub open spec fn stripped_name_spec() -> Seq<u8> {
    seq!['a' as u8, 'l' as u8, 't' as u8, '-' as u8, 's' as u8, 'v' as u8, 'c' as u8]
}

pub fn identity_name() -> (v: Vec<u8>)
    ensures
        v@ == identity_name_spec(),
{
    let mut v: Vec<u8> = Vec::new();
    v.push('S' as u8);
    v.push('e' as u8);
    v.push('r' as u8);
    v.push('v' as u8);
    v.push('e' as u8);
    v.push('r' as u8);
    proof {
        assert(v@ =~= identity_name_spec());
    }
    v
}

pub fn identity_value() -> (v: Vec<u8>)
    ensures
        v@ == identity_value_spec(),
{
    let mut v: Vec<u8> = Vec::new();
    v.push('M' as u8);
    v.push('y' as u8);
    v.push('G' as u8);
    v.push('a' as u8);
    v.push('t' as u8);
    v.push('e' as u8);
    v.push('w' as u8);
    v.push('a' as u8);
    v.push('y' as u8);
    proof {
        assert(v@ =~= identity_value_spec());
    }
    v
}

pub fn stripped_name() -> (v: Vec<u8>)
    ensures
        v@ == stripped_name_spec(),
{
    let mut v: Vec<u8> = Vec::new();
    v.push('a' as u8);
    v.push('l' as u8);
    v.push('t' as u8);
    v.push('-' as u8);
    v.push('s' as u8);
    v.push('v' as u8);
    v.push('c' as u8);
    proof {
        assert(v@ =~= stripped_name_spec());
    }
    v
}

/// What rewriting does to a header set: drop whatever the upstream said under
/// the identity header's name, drop the stripped header, and append the
/// identity header with its fixed value. Everything else keeps its order.
pub open spec fn rewrite_spec(h: HeaderFields) -> HeaderFields {
    strip(strip(h, identity_name_spec()), stripped_name_spec()).push(
        (identity_name_spec(), identity_value_spec()),
    )
}

/// The two target names differ even case-insensitively.
proof fn lemma_target_names_differ()
    ensures
        !names_match(identity_name_spec(), stripped_name_spec()),
{
    assert(lower(identity_name_spec()).len() == 6);
    assert(lower(stripped_name_spec()).len() == 7);
}

/// Apply the response rewrite in place.
pub fn rewrite_response(h: &mut HeaderMap)
    ensures
        final(h)@ == rewrite_spec(old(h)@),
{
    let name = identity_name();
    let value = identity_value();
    let gone = stripped_name();
    h.insert(name, value);
    h.remove(&gone);
    proof {
        lemma_target_names_differ();
        lemma_strip_push(
            strip(old(h)@, identity_name_spec()),
            stripped_name_spec(),
            (identity_name_spec(), identity_value_spec()),
        );
    }
}

/// Law: rewriting is idempotent; a second rewrite changes nothing.
pub proof fn lemma_rewrite_idempotent(h: HeaderFields)
    ensures
        rewrite_spec(rewrite_spec(h)) == rewrite_spec(h),
{
    let sn = identity_name_spec();
    let an = stripped_name_spec();
    let e = (identity_name_spec(), identity_value_spec());
    let y = strip(strip(h, sn), an);
    lemma_target_names_differ();
    lemma_strip_push(y, sn, e);
    assert(strip(rewrite_spec(h), sn) == strip(y, sn));
    lemma_strip_absent(h, sn);
    lemma_strip_preserves_absent(strip(h, sn), sn, an);
    lemma_strip_id_when_absent(y, sn);
    lemma_strip_absent(strip(h, sn), an);
    lemma_strip_id_when_absent(y, an);
}

/// Law: a rewritten header set always carries the identity header with its
/// fixed value, and never the stripped header, whatever the upstream sent.
pub proof fn lemma_rewrite_identity_present_stripped_absent(h: HeaderFields)
    ensures
        lookup(rewrite_spec(h), identity_name_spec()) == Some(identity_value_spec()),
        !contains_name(rewrite_spec(h), stripped_name_spec()),
        forall|i: int|
            0 <= i < rewrite_spec(h).len() ==> !names_match(
                rewrite_spec(h)[i].0,
                stripped_name_spec(),
            ),
{
    lemma_contains_name_iff(rewrite_spec(h), stripped_name_spec());
    let sn = identity_name_spec();
    let an = stripped_name_spec();
    let e = (identity_name_spec(), identity_value_spec());
    let y = strip(strip(h, sn), an);
    lemma_target_names_differ();
    lemma_strip_absent(h, sn);
    lemma_strip_preserves_absent(strip(h, sn), sn, an);
    lemma_lookup_push_absent(y, sn, e);
    lemma_strip_absent(strip(h, sn), an);
    lemma_contains_push(y, an, e);
}

} // verus!
