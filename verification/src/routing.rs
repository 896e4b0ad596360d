//! Route resolution: a fixed, ordered table of (prefix, target) pairs with a
//! default target. The first entry whose prefix literally prefixes the request
//! path wins; anything unmatched goes to the default. Resolution is total:
//! every path yields a target.

use vstd::prelude::*;

use crate::bytes::starts_with;

verus! {

/// A backend to forward to: address, port, and TLS parameters.
pub struct RouteTarget {
    pub host: String,
    pub port: u16,
    pub use_tls: bool,
    pub tls_server_name: String,
}

/// The mathematical image of a `RouteTarget`.
pub struct TargetView {
    pub host: Seq<char>,
    pub port: u16,
    pub use_tls: bool,
    pub tls_server_name: Seq<char>,
}

impl View for RouteTarget {
    type V = TargetView;

    open spec fn view(&self) -> TargetView {
        TargetView {
            host: self.host@,
            port: self.port,
            use_tls: self.use_tls,
            tls_server_name: self.tls_server_name@,
        }
    }
}

impl RouteTarget {
    /// A fresh target equal to this one; targets are computed fresh per
    /// request and never shared across requests.
    pub fn duplicate(&self) -> (t: RouteTarget)
        ensures
            t@ == self@,
    {
        RouteTarget {
            host: self.host.clone(),
            port: self.port,
            use_tls: self.use_tls,
            tls_server_name: self.tls_server_name.clone(),
        }
    }
}

/// One table row: requests whose path starts with `prefix` go to `target`.
pub struct RouteEntry {
    pub prefix: Vec<u8>,
    pub target: RouteTarget,
}

/// The mathematical image of the table: (prefix, target) pairs in order.
pub struct TableView {
    pub entries: Seq<(Seq<u8>, TargetView)>,
    pub default_target: TargetView,
}

/// The routing table: ordered entries plus the default target that absorbs
/// every unmatched path. Built once at startup and read-only afterwards.
pub struct RouteTable {
    pub entries: Vec<RouteEntry>,
    pub default_target: RouteTarget,
}

impl View for RouteTable {
    type V = TableView;

    open spec fn view(&self) -> TableView {
        TableView {
            entries: Seq::new(
                self.entries@.len(),
                |i: int| (self.entries@[i].prefix@, self.entries@[i].target@),
            ),
            default_target: self.default_target@,
        }
    }
}

/// The target of the first entry whose prefix literally prefixes `path`; the
/// default target when none does.
pub open spec fn resolve_spec(
    entries: Seq<(Seq<u8>, TargetView)>,
    default_target: TargetView,
    path: Seq<u8>,
) -> TargetView
    decreases entries.len(),
{
    if entries.len() == 0 {
        default_target
    } else if entries[0].0.is_prefix_of(path) {
        entries[0].1
    } else {
        resolve_spec(entries.drop_first(), default_target, path)
    }
}

/// Resolution from position `i` on agrees with resolution over the whole
/// table when no earlier entry matches.
proof fn lemma_resolve_skip(
    entries: Seq<(Seq<u8>, TargetView)>,
    default_target: TargetView,
    path: Seq<u8>,
    i: int,
)
    requires
        0 <= i <= entries.len(),
        forall|j: int| 0 <= j < i ==> !entries[j].0.is_prefix_of(path),
    ensures
        resolve_spec(entries.skip(i), default_target, path) == resolve_spec(
            entries,
            default_target,
            path,
        ),
    decreases i,
{
    if i > 0 {
        assert(entries.drop_first() =~= entries.skip(1));
        assert forall|j: int| 0 <= j < i - 1 implies !entries.skip(1)[j].0.is_prefix_of(path) by {
            assert(entries.skip(1)[j] == entries[j + 1]);
        }
        lemma_resolve_skip(entries.skip(1), default_target, path, i - 1);
        assert(entries.skip(1).skip(i - 1) =~= entries.skip(i));
    } else {
        assert(entries.skip(0) =~= entries);
    }
}

impl RouteTable {
    /// Scan the table in order and return the first matching target, or the
    /// default when no prefix matches.
    pub fn resolve(&self, path: &Vec<u8>) -> (t: RouteTarget)
        ensures
            t@ == resolve_spec(self@.entries, self@.default_target, path@),
    {
        let ghost entries = self@.entries;
        let mut i: usize = 0;
        while i < self.entries.len()
            invariant
                i <= entries.len(),
                entries.len() == self.entries@.len(),
                entries == self@.entries,
                forall|j: int| 0 <= j < i ==> !entries[j].0.is_prefix_of(path@),
            decreases entries.len() - i,
        {
            if starts_with(path, &self.entries[i].prefix) {
                proof {
                    lemma_resolve_skip(entries, self@.default_target, path@, i as int);
                    assert(entries.skip(i as int)[0] == entries[i as int]);
                }
                return self.entries[i].target.duplicate();
            }
            i += 1;
        }
        proof {
            lemma_resolve_skip(entries, self@.default_target, path@, entries.len() as int);
            assert(entries.skip(entries.len() as int) =~= Seq::<(Seq<u8>, TargetView)>::empty());
        }
        self.default_target.duplicate()
    }
}

/// Law: resolution returns the default target when no entry's prefix
/// prefixes the path, and the target of the first matching entry otherwise.
pub proof fn lemma_resolve_characterized(
    entries: Seq<(Seq<u8>, TargetView)>,
    default_target: TargetView,
    path: Seq<u8>,
)
    ensures
        (forall|j: int| 0 <= j < entries.len() ==> !entries[j].0.is_prefix_of(path))
            ==> resolve_spec(entries, default_target, path) == default_target,
        forall|i: int|
            (0 <= i < entries.len() && entries[i].0.is_prefix_of(path) && (forall|j: int|
                0 <= j < i ==> !entries[j].0.is_prefix_of(path))) ==> resolve_spec(
                entries,
                default_target,
                path,
            ) == entries[i].1,
{
    if forall|j: int| 0 <= j < entries.len() ==> !entries[j].0.is_prefix_of(path) {
        lemma_resolve_skip(entries, default_target, path, entries.len() as int);
        assert(entries.skip(entries.len() as int) =~= Seq::<(Seq<u8>, TargetView)>::empty());
    }
    assert forall|i: int|
        (0 <= i < entries.len() && entries[i].0.is_prefix_of(path) && (forall|j: int|
            0 <= j < i ==> !entries[j].0.is_prefix_of(path))) implies resolve_spec(
        entries,
        default_target,
        path,
    ) == entries[i].1 by {
        lemma_resolve_skip(entries, default_target, path, i);
        assert(entries.skip(i)[0] == entries[i]);
    }
}

} // verus!
