use conn::connection_settings::{ConfigError, ConnectionSettings};
use conn::raw_vars::{merge_env_wins, RawVariableSet};
use conn::transport::{
    derive_transport, material_failure, requires_clean_session, tls_material_plan, MaterialKind,
    TlsMaterial, TlsVersion,
};

fn settings(use_tls: bool) -> ConnectionSettings {
    ConnectionSettings {
        mqtt_host_name: "broker.example.com".to_string(),
        mqtt_tcp_port: 8883,
        mqtt_use_tls: use_tls,
        mqtt_clean_session: true,
        mqtt_keep_alive_in_seconds: 30,
        mqtt_client_id: String::new(),
        mqtt_username: None,
        mqtt_password: None,
        mqtt_ca_file: None,
        mqtt_cert_file: None,
        mqtt_key_file: None,
        mqtt_key_file_password: None,
    }
}

#[test]
fn env_value_wins_over_file_value() {
    let mut env = RawVariableSet::new();
    env.insert("MQTT_HOST_NAME".to_string(), "from-env".to_string());
    let mut file = RawVariableSet::new();
    file.insert("MQTT_HOST_NAME".to_string(), "from-file".to_string());
    file.insert("MQTT_CLIENT_ID".to_string(), "file-client".to_string());
    let merged = merge_env_wins(&env, &file);
    assert_eq!(merged.get("MQTT_HOST_NAME").map(String::as_str), Some("from-env"));
    assert_eq!(merged.get("MQTT_CLIENT_ID").map(String::as_str), Some("file-client"));
}

#[test]
fn file_fills_only_absent_names() {
    let mut env = RawVariableSet::new();
    env.insert("A".to_string(), "1".to_string());
    let mut file = RawVariableSet::new();
    file.insert("A".to_string(), "2".to_string());
    file.insert("B".to_string(), "3".to_string());
    let merged = merge_env_wins(&env, &file);
    assert_eq!(merged.get("A").map(String::as_str), Some("1"));
    assert_eq!(merged.get("B").map(String::as_str), Some("3"));
    assert!(merged.get("C").is_none());
}

#[test]
fn plaintext_scheme_when_tls_disabled() {
    let mut s = settings(false);
    s.mqtt_tcp_port = 1883;
    let t = derive_transport(&s);
    assert_eq!(t.scheme, "plaintext");
    assert_eq!(t.server_address, "plaintext://broker.example.com:1883");
    assert!(t.tls.is_none());
}

#[test]
fn encrypted_scheme_when_tls_enabled() {
    let s = settings(true);
    let t = derive_transport(&s);
    assert_eq!(t.scheme, "encrypted");
    assert_eq!(t.server_address, "encrypted://broker.example.com:8883");
    let tls = t.tls.unwrap();
    assert_eq!(tls.version, TlsVersion::V1_2);
    assert_eq!(tls.trust_store, None);
    assert_eq!(tls.key_store, None);
    assert_eq!(tls.private_key, None);
    assert_eq!(tls.private_key_password, None);
}

#[test]
fn tls_gating_ignores_material_paths_when_disabled() {
    let mut s = settings(false);
    s.mqtt_ca_file = Some("/some/path".to_string());
    s.mqtt_cert_file = Some("/some/cert".to_string());
    let t = derive_transport(&s);
    assert!(t.tls.is_none());
    assert!(tls_material_plan(&s).is_empty());
}

#[test]
fn material_paths_carried_when_tls_enabled() {
    let mut s = settings(true);
    s.mqtt_ca_file = Some("/tls/ca.pem".to_string());
    s.mqtt_key_file = Some("/tls/key.pem".to_string());
    s.mqtt_key_file_password = Some("kp".to_string());
    let t = derive_transport(&s);
    let tls = t.tls.unwrap();
    assert_eq!(tls.trust_store.as_deref(), Some("/tls/ca.pem"));
    assert_eq!(tls.key_store, None);
    assert_eq!(tls.private_key.as_deref(), Some("/tls/key.pem"));
    assert_eq!(tls.private_key_password.as_deref(), Some("kp"));
}

#[test]
fn material_plan_is_ordered_trust_key_private() {
    let mut s = settings(true);
    s.mqtt_ca_file = Some("/tls/ca.pem".to_string());
    s.mqtt_cert_file = Some("/tls/cert.pem".to_string());
    s.mqtt_key_file = Some("/tls/key.pem".to_string());
    let plan = tls_material_plan(&s);
    assert_eq!(plan.len(), 3);
    assert_eq!(plan[0].kind, MaterialKind::TrustStore);
    assert_eq!(plan[0].path, "/tls/ca.pem");
    assert_eq!(plan[1].kind, MaterialKind::KeyStore);
    assert_eq!(plan[1].path, "/tls/cert.pem");
    assert_eq!(plan[2].kind, MaterialKind::PrivateKey);
    assert_eq!(plan[2].path, "/tls/key.pem");
}

#[test]
fn material_plan_skips_absent_paths() {
    let mut s = settings(true);
    s.mqtt_key_file = Some("/tls/key.pem".to_string());
    let plan = tls_material_plan(&s);
    assert_eq!(plan.len(), 1);
    assert_eq!(plan[0].kind, MaterialKind::PrivateKey);
    assert_eq!(plan[0].path, "/tls/key.pem");
}

#[test]
fn material_failure_names_the_path() {
    let m = TlsMaterial { kind: MaterialKind::TrustStore, path: "/missing/ca.pem".to_string() };
    let e = material_failure(&m, "no such file".to_string());
    assert_eq!(
        e,
        ConfigError::MaterialLoadFailure {
            path: "/missing/ca.pem".to_string(),
            cause: "no such file".to_string(),
        }
    );
}

#[test]
fn credentials_attached_only_when_present() {
    let mut s = settings(false);
    s.mqtt_username = Some("alice".to_string());
    let t = derive_transport(&s);
    assert_eq!(t.username.as_deref(), Some("alice"));
    assert_eq!(t.password, None);
}

#[test]
fn keep_alive_and_session_mode_map_directly() {
    let mut s = settings(false);
    s.mqtt_keep_alive_in_seconds = 120;
    s.mqtt_clean_session = false;
    let t = derive_transport(&s);
    assert_eq!(t.keep_alive_seconds, 120);
    assert!(!t.clean_session);
    assert!(!requires_clean_session(&s));
    s.mqtt_clean_session = true;
    assert!(requires_clean_session(&s));
}

#[test]
fn address_renders_edge_ports() {
    let mut s = settings(false);
    s.mqtt_tcp_port = 0;
    assert_eq!(derive_transport(&s).server_address, "plaintext://broker.example.com:0");
    s.mqtt_tcp_port = 65535;
    assert_eq!(derive_transport(&s).server_address, "plaintext://broker.example.com:65535");
}
