//! The validated connection profile and its resolution from a raw
//! variable set: defaulting, required-field enforcement, and the typing
//! of the integer and boolean settings.

use vstd::prelude::*;
use crate::text::{all_dec_digits, bool_value, dec_val, digit_val, is_dec_digit, u16_value};
use crate::raw_vars::RawVariableSet;

verus! {

/// A configuration failure, carrying the offending variable or path.
#[derive(Debug, PartialEq)]
pub enum ConfigError {
    /// The named configuration file could not be opened or parsed.
    FileUnreadable { path: String, cause: String },
    /// A required field is absent from the variable set.
    MissingRequired { field: String },
    /// A field is present but not a non-negative 16-bit integer.
    InvalidInteger { field: String },
    /// A field is present but not `true` or `false`, case-insensitively.
    InvalidBoolean { field: String },
    /// A TLS material path was present but the file could not be loaded.
    MaterialLoadFailure { path: String, cause: String },
}

/// Mathematical image of `ConfigError`.
pub enum ConfigErrorV {
    FileUnreadable { path: Seq<char>, cause: Seq<char> },
    MissingRequired { field: Seq<char> },
    InvalidInteger { field: Seq<char> },
    InvalidBoolean { field: Seq<char> },
    MaterialLoadFailure { path: Seq<char>, cause: Seq<char> },
}

impl View for ConfigError {
    type V = ConfigErrorV;

    open spec fn view(&self) -> ConfigErrorV {
        match self {
            ConfigError::FileUnreadable { path, cause } => ConfigErrorV::FileUnreadable {
                path: path@,
                cause: cause@,
            },
            ConfigError::MissingRequired { field } => ConfigErrorV::MissingRequired {
                field: field@,
            },
            ConfigError::InvalidInteger { field } => ConfigErrorV::InvalidInteger {
                field: field@,
            },
            ConfigError::InvalidBoolean { field } => ConfigErrorV::InvalidBoolean {
                field: field@,
            },
            ConfigError::MaterialLoadFailure { path, cause } => ConfigErrorV::MaterialLoadFailure {
                path: path@,
                cause: cause@,
            },
        }
    }
}

/// The value of a digit prefix never exceeds the value of the whole
/// digit string.
proof fn lemma_dec_val_take_le(s: Seq<char>, i: int)
    requires
        0 <= i <= s.len(),
        all_dec_digits(s),
    ensures
        dec_val(s.take(i)) <= dec_val(s),
    decreases s.len() - i,
{
    if i < s.len() {
        assert(s.take(i + 1).drop_last() =~= s.take(i));
        assert(s.take(i + 1).last() == s[i]);
        assert(dec_val(s.take(i + 1)) == dec_val(s.take(i)) * 10 + digit_val(s[i]));
        lemma_dec_val_take_le(s, i + 1);
    } else {
        assert(s.take(i) =~= s);
    }
}

/// Converts the text of a setting to a 16-bit integer; accepts exactly
/// the decimal numerals, with an optional leading plus sign, whose value
/// fits, and reports `InvalidInteger` naming the setting otherwise.
pub fn convert_to_int(value: &str, name: &str) -> (r: Result<u16, ConfigError>)
    ensures
        match r {
            Ok(n) => u16_value(value@) == Some(n),
            Err(e) => u16_value(value@) is None && e@ == (ConfigErrorV::InvalidInteger {
                field: name@,
            }),
        },
{
    let len = value.unicode_len();
    let start: usize = if len > 0 && value.get_char(0) == '+' {
        1
    } else {
        0
    };
    let ghost digits = if start == 1 {
        value@.subrange(1, value@.len() as int)
    } else {
        value@
    };
    if len == start {
        return Err(ConfigError::InvalidInteger { field: name.to_owned() });
    }
    let mut acc: u32 = 0;
    let mut i: usize = start;
    while i < len
        invariant
            len == value@.len(),
            start <= 1,
            start == 1 ==> len > 0 && value@[0] == '+',
            start == 0 ==> !(len > 0 && value@[0] == '+'),
            digits == (if start == 1 {
                value@.subrange(1, value@.len() as int)
            } else {
                value@
            }),
            start <= i <= len,
            len > start,
            forall|j: int| start <= j < i ==> is_dec_digit(#[trigger] value@[j]),
            acc == dec_val(digits.take(i - start)),
            acc <= 65535,
        decreases len - i,
    {
        let c = value.get_char(i);
        let cv = c as u32;
        if cv < 48 || cv > 57 {
            assert(!is_dec_digit(digits[i - start]));
            return Err(ConfigError::InvalidInteger { field: name.to_owned() });
        }
        proof {
            assert(digits.take(i + 1 - start).drop_last() =~= digits.take(i - start));
            assert(digits.take(i + 1 - start).last() == value@[i as int]);
        }
        acc = acc * 10 + (cv - 48);
        if acc > 65535 {
            proof {
                assert(dec_val(digits.take(i + 1 - start)) > 65535);
                if all_dec_digits(digits) {
                    lemma_dec_val_take_le(digits, i + 1 - start);
                }
            }
            return Err(ConfigError::InvalidInteger { field: name.to_owned() });
        }
        i += 1;
    }
    proof {
        assert(digits.take(len - start) =~= digits);
    }
    Ok(acc as u16)
}

/// Converts the text of a setting to a boolean; accepts exactly the
/// case-insensitive literals `true` and `false`, and reports
/// `InvalidBoolean` naming the setting otherwise.
pub fn convert_to_bool(value: &str, name: &str) -> (r: Result<bool, ConfigError>)
    ensures
        match r {
            Ok(b) => bool_value(value@) == Some(b),
            Err(e) => bool_value(value@) is None && e@ == (ConfigErrorV::InvalidBoolean {
                field: name@,
            }),
        },
{
    let len = value.unicode_len();
    if len == 4 {
        let c0 = value.get_char(0);
        let c1 = value.get_char(1);
        let c2 = value.get_char(2);
        let c3 = value.get_char(3);
        if (c0 == 't' || c0 == 'T') && (c1 == 'r' || c1 == 'R') && (c2 == 'u' || c2 == 'U') && (
        c3 == 'e' || c3 == 'E') {
            return Ok(true);
        }
    } else if len == 5 {
        let c0 = value.get_char(0);
        let c1 = value.get_char(1);
        let c2 = value.get_char(2);
        let c3 = value.get_char(3);
        let c4 = value.get_char(4);
        if (c0 == 'f' || c0 == 'F') && (c1 == 'a' || c1 == 'A') && (c2 == 'l' || c2 == 'L') && (
        c3 == 's' || c3 == 'S') && (c4 == 'e' || c4 == 'E') {
            return Ok(false);
        }
    }
    Err(ConfigError::InvalidBoolean { field: name.to_owned() })
}

/// The resolved, validated connection profile: every field typed, every
/// default applied. Immutable after construction.
#[derive(Debug, PartialEq)]
pub struct ConnectionSettings {
    pub mqtt_host_name: String,
    pub mqtt_tcp_port: u16,
    pub mqtt_use_tls: bool,
    pub mqtt_clean_session: bool,
    pub mqtt_keep_alive_in_seconds: u16,
    pub mqtt_client_id: String,
    pub mqtt_username: Option<String>,
    pub mqtt_password: Option<String>,
    pub mqtt_ca_file: Option<String>,
    pub mqtt_cert_file: Option<String>,
    pub mqtt_key_file: Option<String>,
    pub mqtt_key_file_password: Option<String>,
}

/// Mathematical image of `ConnectionSettings`.
pub struct ConnectionSettingsV {
    pub mqtt_host_name: Seq<char>,
    pub mqtt_tcp_port: u16,
    pub mqtt_use_tls: bool,
    pub mqtt_clean_session: bool,
    pub mqtt_keep_alive_in_seconds: u16,
    pub mqtt_client_id: Seq<char>,
    pub mqtt_username: Option<Seq<char>>,
    pub mqtt_password: Option<Seq<char>>,
    pub mqtt_ca_file: Option<Seq<char>>,
    pub mqtt_cert_file: Option<Seq<char>>,
    pub mqtt_key_file: Option<Seq<char>>,
    pub mqtt_key_file_password: Option<Seq<char>>,
}

impl View for ConnectionSettings {
    type V = ConnectionSettingsV;

    open spec fn view(&self) -> ConnectionSettingsV {
        ConnectionSettingsV {
            mqtt_host_name: self.mqtt_host_name@,
            mqtt_tcp_port: self.mqtt_tcp_port,
            mqtt_use_tls: self.mqtt_use_tls,
            mqtt_clean_session: self.mqtt_clean_session,
            mqtt_keep_alive_in_seconds: self.mqtt_keep_alive_in_seconds,
            mqtt_client_id: self.mqtt_client_id@,
            mqtt_username: self.mqtt_username.deep_view(),
            mqtt_password: self.mqtt_password.deep_view(),
            mqtt_ca_file: self.mqtt_ca_file.deep_view(),
            mqtt_cert_file: self.mqtt_cert_file.deep_view(),
            mqtt_key_file: self.mqtt_key_file.deep_view(),
            mqtt_key_file_password: self.mqtt_key_file_password.deep_view(),
        }
    }
}

/// The value a variable takes once defaults are applied: its binding in
/// the raw set when present, the default otherwise.
pub open spec fn effective(m: Map<Seq<char>, Seq<char>>, key: Seq<char>, dflt: Seq<char>) -> Seq<
    char,
> {
    if m.dom().contains(key) {
        m[key]
    } else {
        dflt
    }
}

/// An optional variable: its binding when present, absent otherwise.
pub open spec fn opt_entry(m: Map<Seq<char>, Seq<char>>, key: Seq<char>) -> Option<Seq<char>> {
    if m.dom().contains(key) {
        Some(m[key])
    } else {
        None
    }
}

/// What resolution returns on a raw variable mapping: the profile with
/// every default applied and every field typed, or the first validation
/// failure, checked in the order host name, TCP port, TLS flag, clean
/// session flag, keep-alive interval.
pub open spec fn spec_resolve(m: Map<Seq<char>, Seq<char>>) -> Result<
    ConnectionSettingsV,
    ConfigErrorV,
> {
    if !m.dom().contains("MQTT_HOST_NAME"@) {
        Err(ConfigErrorV::MissingRequired { field: "hostName"@ })
    } else {
        match u16_value(effective(m, "MQTT_TCP_PORT"@, "8883"@)) {
            None => Err(ConfigErrorV::InvalidInteger { field: "MQTT_TCP_PORT"@ }),
            Some(port) => match bool_value(effective(m, "MQTT_USE_TLS"@, "true"@)) {
                None => Err(ConfigErrorV::InvalidBoolean { field: "MQTT_USE_TLS"@ }),
                Some(use_tls) => match bool_value(effective(m, "MQTT_CLEAN_SESSION"@, "true"@)) {
                    None => Err(ConfigErrorV::InvalidBoolean { field: "MQTT_CLEAN_SESSION"@ }),
                    Some(clean_session) => match u16_value(
                        effective(m, "MQTT_KEEP_ALIVE_IN_SECONDS"@, "30"@),
                    ) {
                        None => Err(ConfigErrorV::InvalidInteger {
                            field: "MQTT_KEEP_ALIVE_IN_SECONDS"@,
                        }),
                        Some(keep_alive) => Ok(ConnectionSettingsV {
                            mqtt_host_name: m["MQTT_HOST_NAME"@],
                            mqtt_tcp_port: port,
                            mqtt_use_tls: use_tls,
                            mqtt_clean_session: clean_session,
                            mqtt_keep_alive_in_seconds: keep_alive,
                            mqtt_client_id: effective(m, "MQTT_CLIENT_ID"@, Seq::empty()),
                            mqtt_username: opt_entry(m, "MQTT_USERNAME"@),
                            mqtt_password: opt_entry(m, "MQTT_PASSWORD"@),
                            mqtt_ca_file: opt_entry(m, "MQTT_CA_FILE"@),
                            mqtt_cert_file: opt_entry(m, "MQTT_CERT_FILE"@),
                            mqtt_key_file: opt_entry(m, "MQTT_KEY_FILE"@),
                            mqtt_key_file_password: opt_entry(m, "MQTT_KEY_FILE_PASSWORD"@),
                        }),
                    },
                },
            },
        }
    }
}

/// The typed value of an integer variable with a default.
fn int_setting(raw: &RawVariableSet, key: &str, dflt: &str) -> (r: Result<u16, ConfigError>)
    requires
        raw.wf(),
    ensures
        match r {
            Ok(n) => u16_value(effective(raw@, key@, dflt@)) == Some(n),
            Err(e) => u16_value(effective(raw@, key@, dflt@)) is None && e@ == (
            ConfigErrorV::InvalidInteger { field: key@ }),
        },
{
    match raw.get(key) {
        Some(v) => convert_to_int(v.as_str(), key),
        None => convert_to_int(dflt, key),
    }
}

/// The typed value of a boolean variable with a default.
fn bool_setting(raw: &RawVariableSet, key: &str, dflt: &str) -> (r: Result<bool, ConfigError>)
    requires
        raw.wf(),
    ensures
        match r {
            Ok(b) => bool_value(effective(raw@, key@, dflt@)) == Some(b),
            Err(e) => bool_value(effective(raw@, key@, dflt@)) is None && e@ == (
            ConfigErrorV::InvalidBoolean { field: key@ }),
        },
{
    match raw.get(key) {
        Some(v) => convert_to_bool(v.as_str(), key),
        None => convert_to_bool(dflt, key),
    }
}

/// The verbatim value of an optional variable.
fn opt_setting(raw: &RawVariableSet, key: &str) -> (r: Option<String>)
    requires
        raw.wf(),
    ensures
        r.deep_view() == opt_entry(raw@, key@),
{
    match raw.get(key) {
        Some(v) => Some(v.clone()),
        None => None,
    }
}

/// Resolves a raw variable set into the validated connection profile:
/// applies the documented defaults, enforces the required host name, and
/// types the integer and boolean settings, or reports the first failure,
/// naming the offending field. All-or-nothing: no partial profile.
pub fn resolve(raw: &RawVariableSet) -> (r: Result<ConnectionSettings, ConfigError>)
    requires
        raw.wf(),
    ensures
        match r {
            Ok(s) => spec_resolve(raw@) == Ok::<ConnectionSettingsV, ConfigErrorV>(s@),
            Err(e) => spec_resolve(raw@) == Err::<ConnectionSettingsV, ConfigErrorV>(e@),
        },
{
    let mqtt_host_name = match raw.get("MQTT_HOST_NAME") {
        Some(v) => v.clone(),
        None => {
            return Err(ConfigError::MissingRequired { field: "hostName".to_owned() });
        },
    };
    let mqtt_tcp_port = match int_setting(raw, "MQTT_TCP_PORT", "8883") {
        Ok(n) => n,
        Err(e) => {
            return Err(e);
        },
    };
    let mqtt_use_tls = match bool_setting(raw, "MQTT_USE_TLS", "true") {
        Ok(b) => b,
        Err(e) => {
            return Err(e);
        },
    };
    let mqtt_clean_session = match bool_setting(raw, "MQTT_CLEAN_SESSION", "true") {
        Ok(b) => b,
        Err(e) => {
            return Err(e);
        },
    };
    let mqtt_keep_alive_in_seconds = match int_setting(raw, "MQTT_KEEP_ALIVE_IN_SECONDS", "30") {
        Ok(n) => n,
        Err(e) => {
            return Err(e);
        },
    };
    let mqtt_client_id = match raw.get("MQTT_CLIENT_ID") {
        Some(v) => v.clone(),
        None => String::new(),
    };
    Ok(ConnectionSettings {
        mqtt_host_name,
        mqtt_tcp_port,
        mqtt_use_tls,
        mqtt_clean_session,
        mqtt_keep_alive_in_seconds,
        mqtt_client_id,
        mqtt_username: opt_setting(raw, "MQTT_USERNAME"),
        mqtt_password: opt_setting(raw, "MQTT_PASSWORD"),
        mqtt_ca_file: opt_setting(raw, "MQTT_CA_FILE"),
        mqtt_cert_file: opt_setting(raw, "MQTT_CERT_FILE"),
        mqtt_key_file: opt_setting(raw, "MQTT_KEY_FILE"),
        mqtt_key_file_password: opt_setting(raw, "MQTT_KEY_FILE_PASSWORD"),
    })
}

/// Resolution is total and deterministic: the outcome is fixed by the
/// raw variable mapping alone, so resolutions of identical mappings
/// agree in every field and in every reported error.
pub proof fn lemma_resolve_deterministic(
    m: Map<Seq<char>, Seq<char>>,
    r1: Result<ConnectionSettingsV, ConfigErrorV>,
    r2: Result<ConnectionSettingsV, ConfigErrorV>,
)
    requires
        r1 == spec_resolve(m),
        r2 == spec_resolve(m),
    ensures
        r1 == r2,
{
}

/// Resolution is idempotent: resolving the same raw variable mapping
/// twice yields structurally equal profiles both times.
pub proof fn lemma_resolve_idempotent(
    m: Map<Seq<char>, Seq<char>>,
    s1: ConnectionSettingsV,
    s2: ConnectionSettingsV,
)
    requires
        spec_resolve(m) == Ok::<ConnectionSettingsV, ConfigErrorV>(s1),
        spec_resolve(m) == Ok::<ConnectionSettingsV, ConfigErrorV>(s2),
    ensures
        s1 == s2,
{
}

} // verus!
