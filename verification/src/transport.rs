//! Derivation of the concrete transport configuration from a resolved
//! connection profile: connection scheme, assembled server address,
//! session-start mode, credentials, and — only when TLS is enabled —
//! the encryption options and the ordered plan of material files to
//! load.

use vstd::prelude::*;
use crate::connection_settings::{ConfigError, ConfigErrorV, ConnectionSettings};
use crate::text::{dec_repr, u16_to_dec};

verus! {

/// The protocol-version pin for encrypted connections.
#[derive(Debug, Clone, Copy, PartialEq, Eq, Structural)]
pub enum TlsVersion {
    V1_2,
}

/// The role a TLS material file plays.
#[derive(Debug, Clone, Copy, PartialEq, Eq, Structural)]
pub enum MaterialKind {
    TrustStore,
    KeyStore,
    PrivateKey,
}

/// One TLS material file to load: its role and its path.
#[derive(Debug, PartialEq)]
pub struct TlsMaterial {
    pub kind: MaterialKind,
    pub path: String,
}

impl View for TlsMaterial {
    type V = (MaterialKind, Seq<char>);

    open spec fn view(&self) -> (MaterialKind, Seq<char>) {
        (self.kind, self.path@)
    }
}

impl DeepView for TlsMaterial {
    type V = (MaterialKind, Seq<char>);

    open spec fn deep_view(&self) -> (MaterialKind, Seq<char>) {
        self@
    }
}

/// The encryption-options bundle, present only when TLS is enabled.
#[derive(Debug, PartialEq)]
pub struct TlsOptions {
    pub version: TlsVersion,
    pub trust_store: Option<String>,
    pub key_store: Option<String>,
    pub private_key: Option<String>,
    pub private_key_password: Option<String>,
}

/// The derived transport configuration a client library consumes.
#[derive(Debug, PartialEq)]
pub struct DerivedTransportConfig {
    pub scheme: String,
    pub server_address: String,
    pub keep_alive_seconds: u16,
    pub clean_session: bool,
    pub username: Option<String>,
    pub password: Option<String>,
    pub tls: Option<TlsOptions>,
}

/// The connection scheme the TLS flag selects.
pub open spec fn spec_scheme(use_tls: bool) -> Seq<char> {
    if use_tls {
        "encrypted"@
    } else {
        "plaintext"@
    }
}

/// The assembled server address: scheme, host and port.
pub open spec fn spec_server_address(use_tls: bool, host: Seq<char>, port: u16) -> Seq<char> {
    spec_scheme(use_tls) + "://"@ + host + ":"@ + dec_repr(port as nat)
}

/// The ordered plan of TLS material files to load: trust store, then
/// key store, then private key, each only when its path is present;
/// empty whenever TLS is disabled.
pub open spec fn spec_material_plan(
    use_tls: bool,
    ca: Option<Seq<char>>,
    cert: Option<Seq<char>>,
    key: Option<Seq<char>>,
) -> Seq<(MaterialKind, Seq<char>)> {
    if !use_tls {
        Seq::empty()
    } else {
        (match ca {
            Some(p) => seq![(MaterialKind::TrustStore, p)],
            None => Seq::empty(),
        }) + (match cert {
            Some(p) => seq![(MaterialKind::KeyStore, p)],
            None => Seq::empty(),
        }) + (match key {
            Some(p) => seq![(MaterialKind::PrivateKey, p)],
            None => Seq::empty(),
        })
    }
}

fn clone_opt(o: &Option<String>) -> (r: Option<String>)
    ensures
        r.deep_view() == o.deep_view(),
{
    match o {
        Some(v) => Some(v.clone()),
        None => None,
    }
}

/// Precondition check for callers that only support starting a fresh
/// session: whether the profile asks for a clean session.
pub fn requires_clean_session(s: &ConnectionSettings) -> (r: bool)
    ensures
        r == s.mqtt_clean_session,
{
    s.mqtt_clean_session
}

/// Derives the transport configuration from a resolved profile: the
/// scheme and server address follow the TLS flag, keep-alive and
/// session-start mode map directly, credentials are attached only when
/// present, and the encryption options — pinned to TLS 1.2, carrying
/// the material paths verbatim — exist only when TLS is enabled.
pub fn derive_transport(s: &ConnectionSettings) -> (r: DerivedTransportConfig)
    ensures
        r.scheme@ == spec_scheme(s.mqtt_use_tls),
        r.server_address@ == spec_server_address(
            s.mqtt_use_tls,
            s.mqtt_host_name@,
            s.mqtt_tcp_port,
        ),
        r.keep_alive_seconds == s.mqtt_keep_alive_in_seconds,
        r.clean_session == s.mqtt_clean_session,
        r.username.deep_view() == s.mqtt_username.deep_view(),
        r.password.deep_view() == s.mqtt_password.deep_view(),
        !s.mqtt_use_tls ==> r.tls is None,
        s.mqtt_use_tls ==> (r.tls matches Some(t) && t.version == TlsVersion::V1_2
            && t.trust_store.deep_view() == s.mqtt_ca_file.deep_view()
            && t.key_store.deep_view() == s.mqtt_cert_file.deep_view()
            && t.private_key.deep_view() == s.mqtt_key_file.deep_view()
            && t.private_key_password.deep_view() == s.mqtt_key_file_password.deep_view()),
{
    let scheme: &str = if s.mqtt_use_tls {
        "encrypted"
    } else {
        "plaintext"
    };
    let mut server_address = scheme.to_owned();
    server_address.append("://");
    server_address.append(s.mqtt_host_name.as_str());
    server_address.append(":");
    let port_text = u16_to_dec(s.mqtt_tcp_port);
    server_address.append(port_text.as_str());
    let tls = if s.mqtt_use_tls {
        Some(
            TlsOptions {
                version: TlsVersion::V1_2,
                trust_store: clone_opt(&s.mqtt_ca_file),
                key_store: clone_opt(&s.mqtt_cert_file),
                private_key: clone_opt(&s.mqtt_key_file),
                private_key_password: clone_opt(&s.mqtt_key_file_password),
            },
        )
    } else {
        None
    };
    DerivedTransportConfig {
        scheme: scheme.to_owned(),
        server_address,
        keep_alive_seconds: s.mqtt_keep_alive_in_seconds,
        clean_session: s.mqtt_clean_session,
        username: clone_opt(&s.mqtt_username),
        password: clone_opt(&s.mqtt_password),
        tls,
    }
}

/// The ordered TLS material load plan of a profile. A caller performs
/// the loads in this order and stops at the first failure, so a trust
/// store that cannot be loaded keeps the later files from being
/// consulted.
pub fn tls_material_plan(s: &ConnectionSettings) -> (r: Vec<TlsMaterial>)
    ensures
        r.deep_view() == spec_material_plan(
            s.mqtt_use_tls,
            s.mqtt_ca_file.deep_view(),
            s.mqtt_cert_file.deep_view(),
            s.mqtt_key_file.deep_view(),
        ),
        !s.mqtt_use_tls ==> r@.len() == 0,
{
    let mut r: Vec<TlsMaterial> = Vec::new();
    if s.mqtt_use_tls {
        if let Some(p) = &s.mqtt_ca_file {
            r.push(TlsMaterial { kind: MaterialKind::TrustStore, path: p.clone() });
        }
        if let Some(p) = &s.mqtt_cert_file {
            r.push(TlsMaterial { kind: MaterialKind::KeyStore, path: p.clone() });
        }
        if let Some(p) = &s.mqtt_key_file {
            r.push(TlsMaterial { kind: MaterialKind::PrivateKey, path: p.clone() });
        }
    }
    proof {
        assert(r.deep_view() =~= spec_material_plan(
            s.mqtt_use_tls,
            s.mqtt_ca_file.deep_view(),
            s.mqtt_cert_file.deep_view(),
            s.mqtt_key_file.deep_view(),
        ));
    }
    r
}

/// The fatal error for a TLS material file that could not be loaded,
/// naming the offending path and carrying the underlying cause.
pub fn material_failure(m: &TlsMaterial, cause: String) -> (e: ConfigError)
    ensures
        e@ == (ConfigErrorV::MaterialLoadFailure { path: m.path@, cause: cause@ }),
{
    ConfigError::MaterialLoadFailure { path: m.path.clone(), cause }
}

/// TLS gating: with TLS disabled, no encryption options are produced
/// and no material file is scheduled for loading, whatever paths the
/// profile holds.
pub proof fn lemma_tls_gating(ca: Option<Seq<char>>, cert: Option<Seq<char>>, key: Option<Seq<char>>)
    ensures
        spec_material_plan(false, ca, cert, key).len() == 0,
{
}

/// When TLS is enabled and a trust store path is present, the trust
/// store is the first material scheduled, so its load is attempted
/// before the key store or the private key.
pub proof fn lemma_trust_store_first(ca: Seq<char>, cert: Option<Seq<char>>, key: Option<Seq<char>>)
    ensures
        spec_material_plan(true, Some(ca), cert, key).len() >= 1,
        spec_material_plan(true, Some(ca), cert, key)[0] == (MaterialKind::TrustStore, ca),
{
}

} // verus!
