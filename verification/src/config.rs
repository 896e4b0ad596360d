//! The gateway as configured out of the box: the protected namespace
//! "/login" guarded by the fixed shared secret, two service routes, and a
//! catch-all default target. Built once at startup; a refused metrics counter
//! is fatal before any request is served.

use vstd::prelude::*;
use vstd::string::StringExecFns;

use crate::metrics::{valid_metric_name_spec, ConfigError, RequestMetric};
use crate::pipeline::{ConfigView, Gateway, GatewayConfig};
use crate::routing::{RouteEntry, RouteTable, RouteTarget, TableView, TargetView};

verus! {

/// "/login": the protected namespace.
pub open spec fn login_prefix_spec() -> Seq<u8> {
    seq!['/' as u8, 'l' as u8, 'o' as u8, 'g' as u8, 'i' as u8, 'n' as u8]
}

pub fn login_prefix() -> (v: Vec<u8>)
    ensures
        v@ == login_prefix_spec(),
{
    let mut v: Vec<u8> = Vec::new();
    v.push('/' as u8);
    v.push('l' as u8);
    v.push('o' as u8);
    v.push('g' as u8);
    v.push('i' as u8);
    v.push('n' as u8);
    proof {
        assert(v@ =~= login_prefix_spec());
    }
    v
}

/// "password": the fixed shared secret the authorization header must equal.
pub open spec fn standard_secret_spec() -> Seq<u8> {
    seq![
        'p' as u8,
        'a' as u8,
        's' as u8,
        's' as u8,
        'w' as u8,
        'o' as u8,
        'r' as u8,
        'd' as u8,
    ]
}

pub fn standard_secret() -> (v: Vec<u8>)
    ensures
        v@ == standard_secret_spec(),
{
    let mut v: Vec<u8> = Vec::new();
    v.push('p' as u8);
    v.push('a' as u8);
    v.push('s' as u8);
    v.push('s' as u8);
    v.push('w' as u8);
    v.push('o' as u8);
    v.push('r' as u8);
    v.push('d' as u8);
    proof {
        assert(v@ =~= standard_secret_spec());
    }
    v
}

/// "/user-service": the first route's prefix.
pub open spec fn user_service_prefix_spec() -> Seq<u8> {
    seq![
        '/' as u8,
        'u' as u8,
        's' as u8,
        'e' as u8,
        'r' as u8,
        '-' as u8,
        's' as u8,
        'e' as u8,
        'r' as u8,
        'v' as u8,
        'i' as u8,
        'c' as u8,
        'e' as u8,
    ]
}

pub fn user_service_prefix() -> (v: Vec<u8>)
    ensures
        v@ == user_service_prefix_spec(),
{
    let mut v: Vec<u8> = Vec::new();
    v.push('/' as u8);
    v.push('u' as u8);
    v.push('s' as u8);
    v.push('e' as u8);
    v.push('r' as u8);
    v.push('-' as u8);
    v.push('s' as u8);
    v.push('e' as u8);
    v.push('r' as u8);
    v.push('v' as u8);
    v.push('i' as u8);
    v.push('c' as u8);
    v.push('e' as u8);
    proof {
        assert(v@ =~= user_service_prefix_spec());
    }
    v
}

/// "/otp-service": the second route's prefix.
pub open spec fn otp_service_prefix_spec() -> Seq<u8> {
    seq![
        '/' as u8,
        'o' as u8,
        't' as u8,
        'p' as u8,
        '-' as u8,
        's' as u8,
        'e' as u8,
        'r' as u8,
        'v' as u8,
        'i' as u8,
        'c' as u8,
        'e' as u8,
    ]
}

pub fn otp_service_prefix() -> (v: Vec<u8>)
    ensures
        v@ == otp_service_prefix_spec(),
{
    let mut v: Vec<u8> = Vec::new();
    v.push('/' as u8);
    v.push('o' as u8);
    v.push('t' as u8);
    v.push('p' as u8);
    v.push('-' as u8);
    v.push('s' as u8);
    v.push('e' as u8);
    v.push('r' as u8);
    v.push('v' as u8);
    v.push('i' as u8);
    v.push('c' as u8);
    v.push('e' as u8);
    proof {
        assert(v@ =~= otp_service_prefix_spec());
    }
    v
}

/// The backend for paths under "/user-service".
pub open spec fn user_service_target_spec() -> TargetView {
    TargetView {
        host: "127.0.0.1"@,
        port: 8080,
        use_tls: false,
        tls_server_name: "one.one.one.one"@,
    }
}

/// The backend for paths under "/otp-service".
pub open spec fn otp_service_target_spec() -> TargetView {
    TargetView {
        host: "127.0.0.1"@,
        port: 8081,
        use_tls: false,
        tls_server_name: "one.one.one.one"@,
    }
}

/// The default backend that absorbs every unmatched path.
pub open spec fn default_target_spec() -> TargetView {
    TargetView {
        host: "1.1.1.1"@,
        port: 443,
        use_tls: false,
        tls_server_name: "one.one.one.one"@,
    }
}

/// The whole out-of-the-box configuration.
pub open spec fn standard_config_spec() -> ConfigView {
    ConfigView {
        protected_prefix: login_prefix_spec(),
        secret: standard_secret_spec(),
        table: TableView {
            entries: seq![
                (user_service_prefix_spec(), user_service_target_spec()),
                (otp_service_prefix_spec(), otp_service_target_spec()),
            ],
            default_target: default_target_spec(),
        },
    }
}

fn standard_sni() -> (s: String)
    ensures
        s@ == "one.one.one.one"@,
{
    String::from_str("one.one.one.one")
}

/// The out-of-the-box routing table.
pub fn standard_table() -> (t: RouteTable)
    ensures
        t@ == standard_config_spec().table,
{
    let mut entries: Vec<RouteEntry> = Vec::new();
    entries.push(
        RouteEntry {
            prefix: user_service_prefix(),
            target: RouteTarget {
                host: String::from_str("127.0.0.1"),
                port: 8080,
                use_tls: false,
                tls_server_name: standard_sni(),
            },
        },
    );
    entries.push(
        RouteEntry {
            prefix: otp_service_prefix(),
            target: RouteTarget {
                host: String::from_str("127.0.0.1"),
                port: 8081,
                use_tls: false,
                tls_server_name: standard_sni(),
            },
        },
    );
    let t = RouteTable {
        entries,
        default_target: RouteTarget {
            host: String::from_str("1.1.1.1"),
            port: 443,
            use_tls: false,
            tls_server_name: standard_sni(),
        },
    };
    proof {
        assert(t@.entries =~= standard_config_spec().table.entries);
    }
    t
}

/// The out-of-the-box gateway: standard configuration and a fresh request
/// counter at zero. Its fixed counter name and help string are valid, so it
/// always succeeds; startup never fails on this configuration.
pub fn standard_gateway() -> (r: Result<Gateway, ConfigError>)
    ensures
        r is Ok,
        r matches Ok(g) ==> g@.config == standard_config_spec() && g@.metric == 0,
{
    proof {
        reveal_strlit("reg_counter");
        reveal_strlit("Number of requests");
        assert(valid_metric_name_spec("reg_counter"@));
        assert("Number of requests"@.len() > 0);
    }
    let metric = match RequestMetric::new("reg_counter", "Number of requests") {
        Ok(m) => m,
        Err(e) => {
            return Err(e);
        },
    };
    let config = GatewayConfig {
        protected_prefix: login_prefix(),
        secret: standard_secret(),
        table: standard_table(),
    };
    Ok(Gateway { config, metric })
}

} // verus!
