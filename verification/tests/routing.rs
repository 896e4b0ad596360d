//! The routing table: first listed matching prefix wins, default absorbs the
//! rest.

use gateway::config::standard_table;
use gateway::routing::{RouteEntry, RouteTable, RouteTarget};

fn target(host: &str, port: u16) -> RouteTarget {
    RouteTarget {
        host: host.to_string(),
        port,
        use_tls: false,
        tls_server_name: "one.one.one.one".to_string(),
    }
}

#[test]
fn standard_table_routes_user_service() {
    let t = standard_table();
    let got = t.resolve(&b"/user-service/x".to_vec());
    assert_eq!(got.host, "127.0.0.1");
    assert_eq!(got.port, 8080);
    assert!(!got.use_tls);
    assert_eq!(got.tls_server_name, "one.one.one.one");
}

#[test]
fn standard_table_routes_otp_service() {
    let t = standard_table();
    let got = t.resolve(&b"/otp-service".to_vec());
    assert_eq!(got.host, "127.0.0.1");
    assert_eq!(got.port, 8081);
}

#[test]
fn standard_table_unmatched_goes_to_default() {
    let t = standard_table();
    let got = t.resolve(&b"/unknown".to_vec());
    assert_eq!(got.host, "1.1.1.1");
    assert_eq!(got.port, 443);
    let root = t.resolve(&b"/".to_vec());
    assert_eq!(root.host, "1.1.1.1");
    assert_eq!(root.port, 443);
}

#[test]
fn first_listed_match_wins() {
    let t = RouteTable {
        entries: vec![
            RouteEntry { prefix: b"/a".to_vec(), target: target("first", 1) },
            RouteEntry { prefix: b"/ab".to_vec(), target: target("second", 2) },
        ],
        default_target: target("fallback", 9),
    };
    let got = t.resolve(&b"/abc".to_vec());
    assert_eq!(got.host, "first");
    assert_eq!(got.port, 1);
}

#[test]
fn prefix_match_is_literal() {
    let t = RouteTable {
        entries: vec![RouteEntry { prefix: b"/user-service".to_vec(), target: target("a", 1) }],
        default_target: target("fallback", 9),
    };
    // A path that merely contains the prefix elsewhere does not match.
    let got = t.resolve(&b"/x/user-service".to_vec());
    assert_eq!(got.host, "fallback");
}
