use y2kexplorer::config::{
    clamp_live_poll_secs, clamp_watermark_parallelism, krb5_ca_candidates, resolve_kerberos_ssl_ca, AppConfig, AuthConfig,
};

#[test]
fn resolve_prefers_dot_config() {
    let path = AppConfig::resolve_config_path(None, None, Some("/home/u"), false, None, false);
    assert!(path.ends_with(".config/y2kexplorer/config.toml"), "unexpected path: {}", path);
}

#[test]
fn explicit_and_env_paths_win() {
    assert_eq!(AppConfig::resolve_config_path(Some("/x.toml"), Some("/env.toml"), Some("/home/u"), true, None, false), "/x.toml");
    assert_eq!(AppConfig::resolve_config_path(None, Some("/env.toml"), Some("/home/u"), true, None, false), "/env.toml");
}

#[test]
fn legacy_file_used_only_without_home_file() {
    let p = AppConfig::resolve_config_path(None, None, Some("/home/u"), false, Some("/legacy/config.toml"), true);
    assert_eq!(p, "/legacy/config.toml");
    let q = AppConfig::resolve_config_path(None, None, Some("/home/u"), true, Some("/legacy/config.toml"), true);
    assert_eq!(q, "/home/u/.config/y2kexplorer/config.toml");
}

#[test]
fn clamps() {
    assert_eq!(clamp_live_poll_secs(0), 1);
    assert_eq!(clamp_live_poll_secs(99), 30);
    assert_eq!(clamp_live_poll_secs(5), 5);
    assert_eq!(clamp_watermark_parallelism(0), 1);
    assert_eq!(clamp_watermark_parallelism(1000), 64);
}

#[test]
fn default_config_has_local_cluster() {
    let c = AppConfig::default_with_example();
    assert_eq!(c.cluster_names(), vec!["local"]);
    assert_eq!(c.defaults.message_limit, 100);
    let (name, cluster) = c.active_cluster().unwrap();
    assert_eq!(name, "local");
    assert_eq!(cluster.brokers, vec!["localhost:9092"]);
}

#[test]
fn set_active_cluster_rejects_unknown() {
    let mut c = AppConfig::default_with_example();
    let e = c.set_active_cluster("nope").unwrap_err();
    assert_eq!(e, "cluster 'nope' not found (available: local)");
    assert!(c.set_active_cluster("local").is_ok());
}

#[test]
fn krb5_candidates_from_conf() {
    let raw = "[libdefaults]\n  default_realm = X\n[realms]\n X = {\n  pkinit_anchors = FILE:/etc/ca.pem\n }\n";
    let found = krb5_ca_candidates(raw);
    assert_eq!(found, vec!["/etc/ca.pem"]);
}

#[test]
fn kerberos_ssl_ca_prefers_configured_file() {
    let auth = AuthConfig::Kerberos {
        keytab: "k".into(),
        principal: "p".into(),
        service_name: "kafka".into(),
        tls: true,
        krb5_conf: Some("/etc/krb5.conf".into()),
        ssl_ca: Some("/my/ca.pem".into()),
        tls_verify_hostname: true,
    };
    let cands = vec![("/a.pem".to_string(), false), ("/b.pem".to_string(), true)];
    assert_eq!(resolve_kerberos_ssl_ca(&auth, &[]), Some("/my/ca.pem".to_string()));
    assert_eq!(resolve_kerberos_ssl_ca(&auth, &cands), Some("/my/ca.pem".to_string()));
    let no_ca = match auth {
        AuthConfig::Kerberos { keytab, principal, service_name, tls, krb5_conf, tls_verify_hostname, .. } => {
            AuthConfig::Kerberos { keytab, principal, service_name, tls, krb5_conf, ssl_ca: None, tls_verify_hostname }
        }
        other => other,
    };
    assert_eq!(resolve_kerberos_ssl_ca(&no_ca, &cands), Some("/b.pem".to_string()));
    assert_eq!(resolve_kerberos_ssl_ca(&AuthConfig::NoAuth, &cands), None);
}
