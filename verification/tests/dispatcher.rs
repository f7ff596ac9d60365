use schnecke::config::{CacheConfig, ConfigMap};
use schnecke::dispatch::{FinalStep, Outcome, bare_host, plan_request, settle_upstream};

fn one_host_map(host: &str, origin: &str) -> ConfigMap {
    let mut cm = ConfigMap::new();
    cm.insert(CacheConfig::new(host, origin, 86400, 300, false));
    cm
}

#[test]
fn bare_host_drops_port_suffix() {
    assert_eq!(bare_host("a.example:8080"), "a.example");
    assert_eq!(bare_host("a.example"), "a.example");
    assert_eq!(bare_host(":80"), "");
    assert_eq!(bare_host("a:b:c"), "a");
}

#[test]
fn configured_host_is_forwarded_rewritten() {
    let cm = one_host_map("a.example", "https://b.example");
    let headers = vec![
        ("host".to_string(), "a.example".to_string()),
        ("accept".to_string(), "*/*".to_string()),
    ];
    let r = plan_request(&cm, "a.example", "GET", "/x", Some("y=1"), &headers);
    match r {
        Outcome::Forward { target, host_value, method, headers } => {
            assert_eq!(target, "https://b.example/x?y=1");
            assert_eq!(host_value, "b.example");
            assert_eq!(method, "GET");
            assert_eq!(
                headers,
                vec![
                    ("host".to_string(), "b.example".to_string()),
                    ("accept".to_string(), "*/*".to_string()),
                ]
            );
        },
        Outcome::Local { .. } => panic!("expected a forward"),
    }
}

#[test]
fn port_suffix_is_ignored_for_lookup() {
    let cm = one_host_map("a.example", "https://b.example");
    let headers = vec![("host".to_string(), "a.example:3000".to_string())];
    let r = plan_request(&cm, "a.example:3000", "POST", "/", None, &headers);
    match r {
        Outcome::Forward { target, host_value, method, .. } => {
            assert_eq!(target, "https://b.example/");
            assert_eq!(host_value, "b.example");
            assert_eq!(method, "POST");
        },
        Outcome::Local { .. } => panic!("expected a forward"),
    }
}

#[test]
fn query_is_dropped_when_inbound_has_none() {
    let cm = one_host_map("a.example", "https://b.example/base?stale=1");
    let r = plan_request(&cm, "a.example", "GET", "/fresh", None, &vec![]);
    match r {
        Outcome::Forward { target, .. } => assert_eq!(target, "https://b.example/fresh"),
        Outcome::Local { .. } => panic!("expected a forward"),
    }
}

#[test]
fn unconfigured_host_answers_missing() {
    let cm = one_host_map("a.example", "https://b.example");
    let r = plan_request(&cm, "other.example", "GET", "/x", None, &vec![]);
    match r {
        Outcome::Local { status, body } => {
            assert_eq!(status, 200);
            assert_eq!(body, "missing");
        },
        Outcome::Forward { .. } => panic!("expected a local answer"),
    }
}

#[test]
fn domainless_origin_answers_missing() {
    let cm = one_host_map("a.example", "mailto:user@b.example");
    let r = plan_request(&cm, "a.example", "GET", "/x", None, &vec![]);
    match r {
        Outcome::Local { status, body } => {
            assert_eq!(status, 200);
            assert_eq!(body, "missing");
        },
        Outcome::Forward { .. } => panic!("expected a local answer"),
    }
}

#[test]
fn upstream_success_is_relayed() {
    assert!(matches!(settle_upstream(None), FinalStep::RelayUpstream));
}

#[test]
fn upstream_failure_text_becomes_the_body() {
    match settle_upstream(Some("connection refused".to_string())) {
        FinalStep::Respond { status, body } => {
            assert_eq!(status, 200);
            assert_eq!(body, "connection refused");
        },
        FinalStep::RelayUpstream => panic!("expected a local answer"),
    }
}
