use schnecke::config::{
    CacheConfig, ConfigMap, FieldValue, HostEntry, HostsDoc, ServerConfig, collect_config_path,
    config_path_candidates, i64tou32, load_config_doc, resolve_hosts,
};
use schnecke::document::load_config_str;

#[test]
fn i64tou32_bounds() {
    assert_eq!(i64tou32(0), Ok(0));
    assert_eq!(i64tou32(4294967295), Ok(u32::MAX));
    assert_eq!(i64tou32(-1).unwrap_err(), "error!");
    assert_eq!(i64tou32(4294967296).unwrap_err(), "error!");
}

#[test]
fn server_config_new() {
    let s = ServerConfig::new(0, false, false);
    assert_eq!(s.port, 0);
    assert!(!s.use_unix_domain_socket);
    assert!(!s.use_ssl);
}

#[test]
fn cache_config_new() {
    let c = CacheConfig::new("cache.example:3000", "https://contents.example", 60, 30, true);
    assert_eq!(c.host, "cache.example:3000");
    assert_eq!(c.origin, "https://contents.example");
    assert_eq!(c.expire, 60);
    assert_eq!(c.err_expire, 30);
    assert!(c.keep_cache_after_shutdown);
}

#[test]
fn complete_entry_yields_declared_values() {
    let text = "hosts:\n  default:\n    expire: 1000\n    err_expire: 2000\n    keep_cache_after_shutdown: true\n  a.example:\n    origin: https://b.example\n    expire: 60\n    err_expire: 30\n    keep_cache_after_shutdown: false\n";
    let config = load_config_str(text).unwrap();
    let c = config.cache.get("a.example").unwrap();
    assert_eq!(c.host, "a.example");
    assert_eq!(c.origin, "https://b.example");
    assert_eq!(c.expire, 60);
    assert_eq!(c.err_expire, 30);
    assert!(!c.keep_cache_after_shutdown);
    assert_eq!(config.server.port, 0);
    assert!(!config.server.use_unix_domain_socket);
    assert!(!config.server.use_ssl);
}

#[test]
fn default_entry_is_not_a_host() {
    let text = "hosts:\n  default:\n    expire: 1000\n  a.example:\n    origin: https://b.example\n";
    let config = load_config_str(text).unwrap();
    assert!(config.cache.get("default").is_none());
    assert_eq!(config.cache.len(), 1);
}

#[test]
fn missing_fields_fall_back_to_default_tier() {
    let text = "hosts:\n  default:\n    expire: 1000\n    err_expire: abc\n    keep_cache_after_shutdown: true\n  a.example:\n    origin: https://b.example\n";
    let config = load_config_str(text).unwrap();
    let c = config.cache.get("a.example").unwrap();
    assert_eq!(c.expire, 1000);
    // default's err_expire is wrong-typed: treated as absent, constant wins
    assert_eq!(c.err_expire, 300);
    assert!(c.keep_cache_after_shutdown);
}

#[test]
fn missing_fields_fall_back_to_constants() {
    let text = "hosts:\n  a.example:\n    origin: https://b.example\n";
    let config = load_config_str(text).unwrap();
    let c = config.cache.get("a.example").unwrap();
    assert_eq!(c.expire, 86400);
    assert_eq!(c.err_expire, 300);
    assert!(!c.keep_cache_after_shutdown);
}

#[test]
fn missing_origin_is_an_error() {
    let text = "hosts:\n  a.example:\n    expire: 60\n";
    let err = load_config_str(text).unwrap_err();
    assert_eq!(err, "parse error:\n\thost:a.example\n\tstep:origin");
}

#[test]
fn negative_expire_is_an_error() {
    let text = "hosts:\n  a.example:\n    origin: https://b.example\n    expire: -1\n";
    let err = load_config_str(text).unwrap_err();
    assert_eq!(err, "parse error:\n\thost:a.example\n\tstep:expire");
}

#[test]
fn oversized_expire_is_an_error() {
    let text = "hosts:\n  a.example:\n    origin: https://b.example\n    expire: 4294967296\n";
    let err = load_config_str(text).unwrap_err();
    assert_eq!(err, "parse error:\n\thost:a.example\n\tstep:expire");
}

#[test]
fn wrong_typed_expire_is_an_error() {
    let text = "hosts:\n  a.example:\n    origin: https://b.example\n    expire: abc\n";
    let err = load_config_str(text).unwrap_err();
    assert_eq!(err, "parse error:\n\thost:a.example\n\tstep:expire");
}

#[test]
fn out_of_range_err_expire_is_an_error() {
    let text = "hosts:\n  a.example:\n    origin: https://b.example\n    err_expire: -7\n";
    let err = load_config_str(text).unwrap_err();
    assert_eq!(err, "parse error:\n\thost:a.example\n\tstep:err_expire");
}

#[test]
fn default_out_of_range_expire_never_succeeds_as_zero() {
    let text = "hosts:\n  default:\n    expire: 4294967296\n  a.example:\n    origin: https://b.example\n";
    let err = load_config_str(text).unwrap_err();
    assert_eq!(err, "parse error:\n\thost:a.example\n\tstep:expire");
}

#[test]
fn wrong_typed_keep_flag_is_treated_as_absent() {
    // wrong-typed at the host tier: the default tier's boolean wins
    let text = "hosts:\n  default:\n    keep_cache_after_shutdown: true\n  a.example:\n    origin: https://b.example\n    keep_cache_after_shutdown: 17\n";
    let config = load_config_str(text).unwrap();
    assert!(config.cache.get("a.example").unwrap().keep_cache_after_shutdown);
}

#[test]
fn wrong_typed_keep_flag_at_both_tiers_falls_to_false() {
    let text = "hosts:\n  default:\n    keep_cache_after_shutdown: 3\n  a.example:\n    origin: https://b.example\n    keep_cache_after_shutdown: abc\n";
    let config = load_config_str(text).unwrap();
    assert!(!config.cache.get("a.example").unwrap().keep_cache_after_shutdown);
}

#[test]
fn default_err_expire_is_used_when_well_typed() {
    let text = "hosts:\n  default:\n    err_expire: 123\n  a.example:\n    origin: https://b.example\n";
    let config = load_config_str(text).unwrap();
    assert_eq!(config.cache.get("a.example").unwrap().err_expire, 123);
}

#[test]
fn non_string_host_key_is_an_error() {
    let text = "hosts:\n  7:\n    origin: https://b.example\n";
    let err = load_config_str(text).unwrap_err();
    assert_eq!(err, "invalid host key");
}

#[test]
fn unparsable_document_is_an_error() {
    let err = load_config_str("hosts: [").unwrap_err();
    assert_eq!(err, "can't parse config file");
}

#[test]
fn missing_hosts_mapping_is_an_error() {
    let err = load_config_str("other: 1\n").unwrap_err();
    assert_eq!(err, "missing hosts mapping");
}

#[test]
fn duplicate_host_names_last_write_wins() {
    let mk = |origin: &str| HostEntry {
        name: "h.example".to_string(),
        origin: FieldValue::Str(origin.to_string()),
        expire: FieldValue::Missing,
        err_expire: FieldValue::Missing,
        keep_cache_after_shutdown: FieldValue::Missing,
    };
    let doc = HostsDoc { entries: vec![mk("https://first.example"), mk("https://second.example")] };
    let cm = resolve_hosts(&doc).unwrap();
    assert_eq!(cm.len(), 1);
    assert_eq!(cm.get("h.example").unwrap().origin, "https://second.example");
}

#[test]
fn first_failing_entry_names_the_error() {
    let bad = |name: &str| HostEntry {
        name: name.to_string(),
        origin: FieldValue::Missing,
        expire: FieldValue::Missing,
        err_expire: FieldValue::Missing,
        keep_cache_after_shutdown: FieldValue::Missing,
    };
    let doc = HostsDoc { entries: vec![bad("x.example"), bad("y.example")] };
    let err = load_config_doc(&doc).unwrap_err();
    assert_eq!(err, "parse error:\n\thost:x.example\n\tstep:origin");
}

#[test]
fn config_map_insert_replaces() {
    let mut cm = ConfigMap::new();
    cm.insert(CacheConfig::new("h.example", "https://one.example", 1, 2, false));
    cm.insert(CacheConfig::new("h.example", "https://two.example", 3, 4, true));
    assert_eq!(cm.len(), 1);
    let c = cm.get("h.example").unwrap();
    assert_eq!(c.origin, "https://two.example");
    assert_eq!(c.expire, 3);
}

#[test]
fn config_map_walk_preserves_document_order() {
    let text = "hosts:\n  a.example:\n    origin: https://one.example\n  b.example:\n    origin: https://two.example\n";
    let config = load_config_str(text).unwrap();
    assert_eq!(config.cache.len(), 2);
    assert_eq!(config.cache.entry_at(0).host, "a.example");
    assert_eq!(config.cache.entry_at(1).host, "b.example");
}

#[test]
fn dotfile_yml_candidate_wins() {
    let candidates = config_path_candidates();
    assert_eq!(
        candidates,
        vec![".schnecke.yml", ".schnecke.yaml", ".config/schnecke.yml", ".config/schnecke.yaml"]
    );
    let picked = collect_config_path(&candidates, &vec![true, true, true, true]).unwrap();
    assert_eq!(picked, ".schnecke.yml");
    let picked = collect_config_path(&candidates, &vec![false, false, true, true]).unwrap();
    assert_eq!(picked, ".config/schnecke.yml");
}

#[test]
fn no_candidate_lists_all_probed_paths() {
    let candidates = config_path_candidates();
    let err = collect_config_path(&candidates, &vec![false, false, false, false]).unwrap_err();
    assert_eq!(
        err,
        "missing .schnecke.yml .schnecke.yaml .config/schnecke.yml .config/schnecke.yaml"
    );
}
