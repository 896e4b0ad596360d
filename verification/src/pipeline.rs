//! The per-request decision pipeline: authenticate, select the upstream,
//! leave the byte relay to the surrounding substrate, rewrite the response
//! headers, and record the outcome — exactly one observability record and one
//! counted request per terminated pipeline invocation, however it ended.

use vstd::prelude::*;

use crate::auth::{check_credentials, check_spec};
use crate::bytes::starts_with;
use crate::headers::{HeaderFields, HeaderMap};
use crate::metrics::RequestMetric;
use crate::rewrite::{rewrite_response, rewrite_spec};
use crate::routing::{resolve_spec, RouteTable, RouteTarget, TableView, TargetView};

verus! {

/// One inbound request as the pipeline sees it: method, URI path, client
/// identity, and the header mapping. Owned by one pipeline invocation for the
/// duration of one call.
pub struct Request {
    pub method: Vec<u8>,
    pub path: Vec<u8>,
    pub client: Vec<u8>,
    pub headers: HeaderMap,
}

/// The mathematical image of a `Request`.
pub struct RequestView {
    pub method: Seq<u8>,
    pub path: Seq<u8>,
    pub client: Seq<u8>,
    pub headers: HeaderFields,
}

impl View for Request {
    type V = RequestView;

    open spec fn view(&self) -> RequestView {
        RequestView {
            method: self.method@,
            path: self.path@,
            client: self.client@,
            headers: self.headers@,
        }
    }
}

/// The three-way result of admitting a request: either it is rejected here,
/// with the status of the locally synthesized response, or it is forwarded
/// to the resolved target.
pub enum Admission {
    Reject { status: u16 },
    Forward { target: RouteTarget },
}

/// The mathematical image of an `Admission`.
pub enum AdmissionView {
    Reject { status: u16 },
    Forward { target: TargetView },
}

impl View for Admission {
    type V = AdmissionView;

    open spec fn view(&self) -> AdmissionView {
        match self {
            Admission::Reject { status } => AdmissionView::Reject { status: *status },
            Admission::Forward { target } => AdmissionView::Forward { target: target@ },
        }
    }
}

/// How the substrate's relay of one forwarded request concluded: a response
/// with its status and headers, or an abnormal end (refused connection,
/// timeout, client gone) with no response recorded.
pub enum RelayOutcome {
    Completed { status: u16, headers: HeaderMap },
    Aborted,
}

/// The mathematical image of a `RelayOutcome`.
pub enum RelayOutcomeView {
    Completed { status: u16, headers: HeaderFields },
    Aborted,
}

impl View for RelayOutcome {
    type V = RelayOutcomeView;

    open spec fn view(&self) -> RelayOutcomeView {
        match self {
            RelayOutcome::Completed { status, headers } => RelayOutcomeView::Completed {
                status: *status,
                headers: headers@,
            },
            RelayOutcome::Aborted => RelayOutcomeView::Aborted,
        }
    }
}

/// The one observability record a terminated pipeline invocation produces:
/// the request summary's parts and the status finally sent to the client,
/// 0 when no response was ever recorded.
pub struct Record {
    pub method: Vec<u8>,
    pub path: Vec<u8>,
    pub client: Vec<u8>,
    pub status: u16,
}

/// The mathematical image of a `Record`.
pub struct RecordView {
    pub method: Seq<u8>,
    pub path: Seq<u8>,
    pub client: Seq<u8>,
    pub status: u16,
}

impl View for Record {
    type V = RecordView;

    open spec fn view(&self) -> RecordView {
        RecordView {
            method: self.method@,
            path: self.path@,
            client: self.client@,
            status: self.status,
        }
    }
}

/// The gateway's static part: the protected namespace, the shared secret, and
/// the routing table. Built once at startup, read-only while serving.
pub struct GatewayConfig {
    pub protected_prefix: Vec<u8>,
    pub secret: Vec<u8>,
    pub table: RouteTable,
}

/// The mathematical image of a `GatewayConfig`.
pub struct ConfigView {
    pub protected_prefix: Seq<u8>,
    pub secret: Seq<u8>,
    pub table: TableView,
}

impl View for GatewayConfig {
    type V = ConfigView;

    open spec fn view(&self) -> ConfigView {
        ConfigView {
            protected_prefix: self.protected_prefix@,
            secret: self.secret@,
            table: self.table@,
        }
    }
}

/// The gateway: its static configuration plus the one piece of shared mutable
/// state, the request counter.
pub struct Gateway {
    pub config: GatewayConfig,
    pub metric: RequestMetric,
}

/// The mathematical image of a `Gateway`.
pub struct GatewayView {
    pub config: ConfigView,
    pub metric: u64,
}

impl View for Gateway {
    type V = GatewayView;

    open spec fn view(&self) -> GatewayView {
        GatewayView { config: self.config@, metric: self.metric@ }
    }
}

/// A path is protected when it lies under the protected namespace; only such
/// requests face the credential check, all others bypass it by design.
pub open spec fn protected_spec(cfg: ConfigView, path: Seq<u8>) -> bool {
    cfg.protected_prefix.is_prefix_of(path)
}

/// Reject with 403 exactly when the path is protected and the credential
/// check fails; otherwise forward to the resolved target.
pub open spec fn decision_spec(cfg: ConfigView, r: RequestView) -> AdmissionView {
    if protected_spec(cfg, r.path) && !check_spec(r.headers, cfg.secret) {
        AdmissionView::Reject { status: 403 }
    } else {
        AdmissionView::Forward {
            target: resolve_spec(cfg.table.entries, cfg.table.default_target, r.path),
        }
    }
}

/// The status finally sent to the client: 403 for a rejected request, the
/// upstream's status for a completed relay, and the sentinel 0 when no
/// response was ever recorded.
pub open spec fn final_status_spec(cfg: ConfigView, r: RequestView, relay: RelayOutcomeView) -> u16 {
    if decision_spec(cfg, r) is Reject {
        403
    } else {
        match relay {
            RelayOutcomeView::Completed { status, .. } => status,
            RelayOutcomeView::Aborted => 0,
        }
    }
}

/// The record a terminated invocation must produce.
pub open spec fn record_spec(r: RequestView, status: u16) -> RecordView {
    RecordView { method: r.method, path: r.path, client: r.client, status }
}

/// The response headers handed back to the client: the rewritten upstream
/// headers for a completed relay, none for a rejected request (no upstream
/// was contacted) or an aborted relay.
pub open spec fn response_headers_spec(
    cfg: ConfigView,
    r: RequestView,
    relay: RelayOutcomeView,
) -> Option<HeaderFields> {
    if decision_spec(cfg, r) is Reject {
        None
    } else {
        match relay {
            RelayOutcomeView::Completed { headers, .. } => Some(rewrite_spec(headers)),
            RelayOutcomeView::Aborted => None,
        }
    }
}

impl Gateway {
    /// Whether the path lies under the protected namespace.
    pub fn is_protected(&self, path: &Vec<u8>) -> (r: bool)
        ensures
            r == protected_spec(self@.config, path@),
    {
        starts_with(path, &self.config.protected_prefix)
    }

    /// The authentication gate, the pipeline's only early exit: true means
    /// the request is rejected here and the substrate must send the local
    /// error response instead of contacting any upstream.
    pub fn request_filter(&self, req: &Request) -> (reject: bool)
        ensures
            reject == (decision_spec(self@.config, req@) is Reject),
    {
        if self.is_protected(&req.path) {
            !check_credentials(&req.headers, &self.config.secret)
        } else {
            false
        }
    }

    /// The routing stage: the backend the substrate must relay this request
    /// to, computed fresh from the static table.
    pub fn upstream_peer(&self, req: &Request) -> (t: RouteTarget)
        ensures
            t@ == resolve_spec(
                self@.config.table.entries,
                self@.config.table.default_target,
                req@.path,
            ),
    {
        self.config.table.resolve(&req.path)
    }

    /// The authentication stage and the routing stage as one three-way result.
    pub fn decide(&self, req: &Request) -> (a: Admission)
        ensures
            a@ == decision_spec(self@.config, req@),
    {
        if self.request_filter(req) {
            Admission::Reject { status: 403 }
        } else {
            Admission::Forward { target: self.upstream_peer(req) }
        }
    }

    /// Conclude one invocation: count the request and produce its one
    /// observability record. `status` is the status actually sent, or `None`
    /// when the invocation ended without a recorded response.
    pub fn logging(
        &mut self,
        method: Vec<u8>,
        path: Vec<u8>,
        client: Vec<u8>,
        status: Option<u16>,
    ) -> (rec: Record)
        requires
            old(self)@.metric < u64::MAX,
        ensures
            final(self)@.metric == old(self)@.metric + 1,
            final(self)@.config == old(self)@.config,
            rec@ == (RecordView {
                method: method@,
                path: path@,
                client: client@,
                status: match status {
                    Some(s) => s,
                    None => 0,
                },
            }),
    {
        self.metric.record_request();
        let code: u16 = match status {
            Some(s) => s,
            None => 0,
        };
        Record { method, path, client, status: code }
    }

    /// Drive one request through the whole pipeline. `relay` stands for how
    /// the substrate's relay would conclude were the request forwarded; a
    /// rejected request never consults it, so its record and response do not
    /// depend on it. Returns the invocation's one record, and the rewritten
    /// response headers when a relayed response exists.
    pub fn handle(&mut self, req: Request, relay: RelayOutcome) -> (out: (
        Record,
        Option<HeaderMap>,
    ))
        requires
            old(self)@.metric < u64::MAX,
        ensures
            final(self)@.metric == old(self)@.metric + 1,
            final(self)@.config == old(self)@.config,
            out.0@ == record_spec(req@, final_status_spec(old(self)@.config, req@, relay@)),
            match out.1 {
                Some(h) => response_headers_spec(old(self)@.config, req@, relay@) == Some(h@),
                None => response_headers_spec(old(self)@.config, req@, relay@) is None,
            },
    {
        let rejected = self.request_filter(&req);
        let Request { method, path, client, headers: _ } = req;
        if rejected {
            let rec = self.logging(method, path, client, Some(403));
            (rec, None)
        } else {
            match relay {
                RelayOutcome::Completed { status, headers } => {
                    let mut response = headers;
                    rewrite_response(&mut response);
                    let rec = self.logging(method, path, client, Some(status));
                    (rec, Some(response))
                },
                RelayOutcome::Aborted => {
                    let rec = self.logging(method, path, client, None);
                    (rec, None)
                },
            }
        }
    }

    /// Drive a whole batch of independent requests, each paired with how its
    /// relay would conclude. Exactly one record comes out per request, in
    /// order, and the counter grows by exactly the batch's length — the
    /// counted total does not depend on how the invocations interleave, only
    /// on how many there were.
    pub fn handle_all(&mut self, batch: Vec<(Request, RelayOutcome)>) -> (recs: Vec<Record>)
        requires
            old(self)@.metric + batch@.len() <= u64::MAX,
        ensures
            recs@.len() == batch@.len(),
            final(self)@.metric == old(self)@.metric + batch@.len(),
            final(self)@.config == old(self)@.config,
            forall|i: int|
                0 <= i < batch@.len() ==> recs@[i]@ == record_spec(
                    batch@[i].0@,
                    final_status_spec(old(self)@.config, batch@[i].0@, batch@[i].1@),
                ),
    {
        let ghost orig = batch@;
        let ghost start = self@;
        let mut rest = batch;
        let mut recs: Vec<Record> = Vec::new();
        proof {
            assert(orig.skip(0) =~= orig);
        }
        while rest.len() > 0
            invariant
                recs@.len() + rest@.len() == orig.len(),
                rest@ == orig.skip(recs@.len() as int),
                self@.metric == start.metric + recs@.len(),
                self@.config == start.config,
                start.metric + orig.len() <= u64::MAX,
                forall|i: int|
                    0 <= i < recs@.len() ==> recs@[i]@ == record_spec(
                        orig[i].0@,
                        final_status_spec(start.config, orig[i].0@, orig[i].1@),
                    ),
            decreases rest@.len(),
        {
            let ghost k = recs@.len() as int;
            proof {
                assert(rest@[0] == orig.skip(k)[0]);
                assert(orig.skip(k)[0] == orig[k]);
            }
            let (req, relay) = rest.remove(0);
            let (rec, _response) = self.handle(req, relay);
            recs.push(rec);
            proof {
                assert(rest@ =~= orig.skip(k + 1));
            }
        }
        recs
    }
}

/// Law (auth gate, deny): a request under the protected namespace whose
/// headers do not carry the secret is rejected with status 403; no route is
/// resolved for it, no upstream response exists, and its record does not
/// depend on any relay.
pub proof fn lemma_gate_rejects(cfg: ConfigView, r: RequestView, relay: RelayOutcomeView)
    requires
        protected_spec(cfg, r.path),
        !check_spec(r.headers, cfg.secret),
    ensures
        decision_spec(cfg, r) == (AdmissionView::Reject { status: 403 }),
        final_status_spec(cfg, r, relay) == 403,
        response_headers_spec(cfg, r, relay) is None,
{
}

/// Law (auth gate, pass): with the correct secret, or outside the protected
/// namespace whatever the headers, the pipeline proceeds to route resolution
/// and forwards to the resolved target.
pub proof fn lemma_gate_forwards(cfg: ConfigView, r: RequestView)
    requires
        !protected_spec(cfg, r.path) || check_spec(r.headers, cfg.secret),
    ensures
        decision_spec(cfg, r) == (AdmissionView::Forward {
            target: resolve_spec(cfg.table.entries, cfg.table.default_target, r.path),
        }),
{
}

} // verus!
