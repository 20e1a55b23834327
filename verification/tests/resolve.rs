use conn::connection_settings::{convert_to_bool, convert_to_int, resolve, ConfigError};
use conn::raw_vars::RawVariableSet;

fn set_of(pairs: &[(&str, &str)]) -> RawVariableSet {
    let mut raw = RawVariableSet::new();
    for (k, v) in pairs {
        raw.insert(k.to_string(), v.to_string());
    }
    raw
}

#[test]
fn defaults_applied_with_host_only() {
    let raw = set_of(&[("MQTT_HOST_NAME", "broker.example.com")]);
    let s = resolve(&raw).unwrap();
    assert_eq!(s.mqtt_host_name, "broker.example.com");
    assert_eq!(s.mqtt_tcp_port, 8883);
    assert!(s.mqtt_use_tls);
    assert!(s.mqtt_clean_session);
    assert_eq!(s.mqtt_keep_alive_in_seconds, 30);
    assert_eq!(s.mqtt_client_id, "");
    assert_eq!(s.mqtt_username, None);
    assert_eq!(s.mqtt_password, None);
    assert_eq!(s.mqtt_ca_file, None);
    assert_eq!(s.mqtt_cert_file, None);
    assert_eq!(s.mqtt_key_file, None);
    assert_eq!(s.mqtt_key_file_password, None);
}

#[test]
fn missing_host_yields_missing_required() {
    let raw = set_of(&[("MQTT_TCP_PORT", "1883")]);
    let e = resolve(&raw).unwrap_err();
    assert_eq!(e, ConfigError::MissingRequired { field: "hostName".to_string() });
}

#[test]
fn missing_host_reported_before_bad_port() {
    let raw = set_of(&[("MQTT_TCP_PORT", "not-a-number")]);
    let e = resolve(&raw).unwrap_err();
    assert_eq!(e, ConfigError::MissingRequired { field: "hostName".to_string() });
}

#[test]
fn non_numeric_port_yields_invalid_integer() {
    let raw = set_of(&[("MQTT_HOST_NAME", "h"), ("MQTT_TCP_PORT", "not-a-number")]);
    let e = resolve(&raw).unwrap_err();
    assert_eq!(e, ConfigError::InvalidInteger { field: "MQTT_TCP_PORT".to_string() });
}

#[test]
fn out_of_range_port_yields_invalid_integer() {
    let raw = set_of(&[("MQTT_HOST_NAME", "h"), ("MQTT_TCP_PORT", "70000")]);
    let e = resolve(&raw).unwrap_err();
    assert_eq!(e, ConfigError::InvalidInteger { field: "MQTT_TCP_PORT".to_string() });
}

#[test]
fn bad_keep_alive_yields_invalid_integer() {
    let raw = set_of(&[("MQTT_HOST_NAME", "h"), ("MQTT_KEEP_ALIVE_IN_SECONDS", "1e3")]);
    let e = resolve(&raw).unwrap_err();
    assert_eq!(e, ConfigError::InvalidInteger { field: "MQTT_KEEP_ALIVE_IN_SECONDS".to_string() });
}

#[test]
fn yes_is_not_a_boolean() {
    let raw = set_of(&[("MQTT_HOST_NAME", "h"), ("MQTT_USE_TLS", "Yes")]);
    let e = resolve(&raw).unwrap_err();
    assert_eq!(e, ConfigError::InvalidBoolean { field: "MQTT_USE_TLS".to_string() });
}

#[test]
fn boolean_acceptance_is_case_insensitive() {
    let raw = set_of(&[("MQTT_HOST_NAME", "h"), ("MQTT_USE_TLS", "FALSE")]);
    let s = resolve(&raw).unwrap();
    assert!(!s.mqtt_use_tls);
}

#[test]
fn bad_clean_session_yields_invalid_boolean() {
    let raw = set_of(&[("MQTT_HOST_NAME", "h"), ("MQTT_CLEAN_SESSION", "maybe")]);
    let e = resolve(&raw).unwrap_err();
    assert_eq!(e, ConfigError::InvalidBoolean { field: "MQTT_CLEAN_SESSION".to_string() });
}

#[test]
fn explicit_values_taken_verbatim() {
    let raw = set_of(&[
        ("MQTT_HOST_NAME", "broker.example.com"),
        ("MQTT_TCP_PORT", "1883"),
        ("MQTT_USE_TLS", "false"),
        ("MQTT_CLEAN_SESSION", "False"),
        ("MQTT_KEEP_ALIVE_IN_SECONDS", "120"),
        ("MQTT_CLIENT_ID", "client-7"),
        ("MQTT_USERNAME", "alice"),
        ("MQTT_PASSWORD", "pw"),
        ("MQTT_CA_FILE", "/tls/ca.pem"),
        ("MQTT_CERT_FILE", "/tls/cert.pem"),
        ("MQTT_KEY_FILE", "/tls/key.pem"),
        ("MQTT_KEY_FILE_PASSWORD", "pw"),
    ]);
    let s = resolve(&raw).unwrap();
    assert_eq!(s.mqtt_host_name, "broker.example.com");
    assert_eq!(s.mqtt_tcp_port, 1883);
    assert!(!s.mqtt_use_tls);
    assert!(!s.mqtt_clean_session);
    assert_eq!(s.mqtt_keep_alive_in_seconds, 120);
    assert_eq!(s.mqtt_client_id, "client-7");
    assert_eq!(s.mqtt_username.as_deref(), Some("alice"));
    assert_eq!(s.mqtt_password.as_deref(), Some("pw"));
    assert_eq!(s.mqtt_ca_file.as_deref(), Some("/tls/ca.pem"));
    assert_eq!(s.mqtt_cert_file.as_deref(), Some("/tls/cert.pem"));
    assert_eq!(s.mqtt_key_file.as_deref(), Some("/tls/key.pem"));
    assert_eq!(s.mqtt_key_file_password.as_deref(), Some("pw"));
}

#[test]
fn empty_client_id_differs_from_absent_username() {
    let raw = set_of(&[("MQTT_HOST_NAME", "h"), ("MQTT_CLIENT_ID", "")]);
    let s = resolve(&raw).unwrap();
    assert_eq!(s.mqtt_client_id, "");
    assert_eq!(s.mqtt_username, None);
}

#[test]
fn resolve_is_idempotent() {
    let raw = set_of(&[
        ("MQTT_HOST_NAME", "broker.example.com"),
        ("MQTT_TCP_PORT", "1883"),
        ("MQTT_USERNAME", "alice"),
    ]);
    let first = resolve(&raw).unwrap();
    let second = resolve(&raw).unwrap();
    assert_eq!(first, second);
}

#[test]
fn insert_replaces_earlier_binding() {
    let mut raw = RawVariableSet::new();
    raw.insert("MQTT_HOST_NAME".to_string(), "first".to_string());
    raw.insert("MQTT_HOST_NAME".to_string(), "second".to_string());
    let s = resolve(&raw).unwrap();
    assert_eq!(s.mqtt_host_name, "second");
}

#[test]
fn convert_to_int_accepts_plain_and_signed_numerals() {
    assert_eq!(convert_to_int("0", "F").unwrap(), 0);
    assert_eq!(convert_to_int("+123", "F").unwrap(), 123);
    assert_eq!(convert_to_int("007", "F").unwrap(), 7);
    assert_eq!(convert_to_int("65535", "F").unwrap(), 65535);
}

#[test]
fn convert_to_int_rejects_bad_numerals() {
    let err = ConfigError::InvalidInteger { field: "F".to_string() };
    assert_eq!(convert_to_int("65536", "F").unwrap_err(), err);
    assert_eq!(convert_to_int("", "F").unwrap_err(), err);
    assert_eq!(convert_to_int("+", "F").unwrap_err(), err);
    assert_eq!(convert_to_int("-1", "F").unwrap_err(), err);
    assert_eq!(convert_to_int(" 1", "F").unwrap_err(), err);
    assert_eq!(convert_to_int("1 ", "F").unwrap_err(), err);
    assert_eq!(convert_to_int("12x", "F").unwrap_err(), err);
    assert_eq!(convert_to_int("999999", "F").unwrap_err(), err);
}

#[test]
fn convert_to_bool_accepts_only_true_false() {
    assert!(convert_to_bool("true", "F").unwrap());
    assert!(convert_to_bool("TRUE", "F").unwrap());
    assert!(convert_to_bool("TrUe", "F").unwrap());
    assert!(!convert_to_bool("false", "F").unwrap());
    assert!(!convert_to_bool("FaLsE", "F").unwrap());
    let err = ConfigError::InvalidBoolean { field: "F".to_string() };
    assert_eq!(convert_to_bool("tru", "F").unwrap_err(), err);
    assert_eq!(convert_to_bool("truee", "F").unwrap_err(), err);
    assert_eq!(convert_to_bool("yes", "F").unwrap_err(), err);
    assert_eq!(convert_to_bool("", "F").unwrap_err(), err);
    assert_eq!(convert_to_bool("1", "F").unwrap_err(), err);
}
