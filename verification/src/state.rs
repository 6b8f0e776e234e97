//! What the servers share: the configuration, the backend, and the clock.

use crate::config::{
    AlgorithmConfig, AuthConfig, GatewayConfig, HsmConfig, KeyConfig, KeyConfigView, LogFormat,
    ObservabilityConfig, ServerConfig, SoftwareHsmConfig,
};
use crate::hsm::HsmBackend;
use crate::net;
use crate::net::{resolve, IpAddr};
use crate::string_map::StringMap;
use crate::text;
use chrono::Utc;
use uuid::Uuid;
use vstd::prelude::*;

verus! {

/// A point in time.
#[verifier::external_type_specification]
#[verifier::external_body]
pub struct ExInstant(std::time::Instant);

/// The present point in time (`std::time::Instant::now`). Nothing is said of it.
#[verifier::external_body]
pub(crate) fn now() -> (r: std::time::Instant) {
    std::time::Instant::now()
}

/// The time that has passed since then (`std::time::Instant::elapsed`). Nothing is said of it.
#[verifier::external_body]
fn elapsed_since(start: &std::time::Instant) -> (r: std::time::Duration) {
    start.elapsed()
}

/// The whole seconds of a span of time (`std::time::Duration::as_secs`). Nothing is said of their
/// number: to the verifier a span of time holds nothing.
#[verifier::external_body]
fn seconds_of(span: std::time::Duration) -> (r: u64) {
    span.as_secs()
}

/// How many whole seconds have passed since then. Nothing is said of their number: the clock decides.
pub(crate) fn seconds_since(start: &std::time::Instant) -> (r: u64) {
    seconds_of(elapsed_since(start))
}

/// The present time in RFC 3339 (`chrono::Utc::now`, `to_rfc3339`). Nothing is said of it.
#[verifier::external_body]
pub(crate) fn time_stamp() -> (r: String) {
    Utc::now().to_rfc3339()
}

/// Does a hyphen stand at that place of a UUID?
pub open spec fn is_hyphen_place(i: int) -> bool {
    i == 8 || i == 13 || i == 18 || i == 23
}

/// A lower-case hex digit.
pub open spec fn is_lower_hex(c: char) -> bool {
    '0' <= c <= '9' || 'a' <= c <= 'f'
}

/// The text has the form of a random UUID: 32 lower-case hex digits in five groups, the version 4 at
/// the head of the third, and the variant in the first digit of the fourth.
pub open spec fn is_uuid_v4(s: Seq<char>) -> bool {
    &&& s.len() == 36
    &&& forall|i: int|
        0 <= i < 36 ==> if is_hyphen_place(i) {
            #[trigger] s[i] == '-'
        } else {
            is_lower_hex(s[i])
        }
    &&& s[14] == '4'
    &&& s[19] == '8' || s[19] == '9' || s[19] == 'a' || s[19] == 'b'
}

/// A new random id (`uuid::Uuid::new_v4`, which sets the version and the variant), as `Uuid`'s
/// `Display` writes it: in lower case, with hyphens.
#[verifier::external_body]
pub(crate) fn new_id() -> (r: String)
    ensures
        is_uuid_v4(r@),
{
    Uuid::new_v4().to_string()
}

/// The gateway's version.
pub open spec fn gateway_version() -> Seq<char> {
    "0.1.0"@
}

/// The gateway's version.
pub fn version() -> (r: String)
    ensures
        r@ == gateway_version(),
{
    "0.1.0".to_owned()
}

/// What the servers share.
pub struct AppState<B> {
    pub config: GatewayConfig,
    pub hsm: B,
    pub start_time: std::time::Instant,
}

impl<B: HsmBackend> AppState<B> {
    /// The state of a gateway that starts now.
    pub fn new(config: GatewayConfig, hsm: B) -> (r: Self)
        ensures
            r.config == config,
            r.hsm == hsm,
    {
        AppState { config, hsm, start_time: now() }
    }

    /// The address that a request counts as coming from.
    pub open spec fn client_ip(&self, peer: IpAddr, forwarded_for: Option<Seq<char>>) -> IpAddr {
        net::client_ip(self.config.trusted_proxies.deep_view(), peer, forwarded_for)
    }

    /// The address that a request counts as coming from: the leftmost one in `X-Forwarded-For` if
    /// the peer is a trusted proxy, else the peer's own.
    pub fn resolve_client_ip(&self, peer: IpAddr, forwarded_for: Option<&str>) -> (r: IpAddr)
        ensures
            r == self.client_ip(peer, text::option_view(forwarded_for)),
    {
        resolve(&self.config.trusted_proxies, peer, forwarded_for)
    }
}

/// The keys of the development configuration.
pub open spec fn default_keys() -> Seq<KeyConfigView> {
    seq![
        KeyConfigView {
            id: "default-ec"@,
            description: "Default EC P-256 signing key (dev)"@,
            backend_ref: "default-ec"@,
            algorithm: AlgorithmConfig::Es256,
            enabled: true,
        },
        KeyConfigView {
            id: "default-rsa"@,
            description: "Default RSA-2048 signing key (dev)"@,
            backend_ref: "default-rsa"@,
            algorithm: AlgorithmConfig::Rs256,
            enabled: true,
        },
    ]
}

/// The configuration for development, where no other is found.
pub fn default_config() -> (r: GatewayConfig)
    ensures
        r.server.http_addr@ == "0.0.0.0:8080"@,
        r.server.grpc_addr@ == "0.0.0.0:50051"@,
        r.server.tls is None,
        r.server.shutdown_timeout_secs == 30,
        r.hsm matches HsmConfig::Software(sw) && sw.key_dir@ == "/tmp/signing-gateway-keys"@,
        r.keys.deep_view() == default_keys(),
        r.auth@.tokens.len() == 0,
        r.auth@.allow_all,
        r.auth@.allowed_keys.len() == 0,
        r.auth@.allowed_ips.len() == 0,
        r.observability.log_format == LogFormat::Pretty,
        r.observability.log_level@ == "info"@,
        r.observability.metrics_addr matches Some(addr) && addr@ == "0.0.0.0:9090"@,
        r.trusted_proxies@.len() == 0,
{
    let mut keys: Vec<KeyConfig> = Vec::new();
    keys.push(
        KeyConfig {
            id: "default-ec".to_owned(),
            description: "Default EC P-256 signing key (dev)".to_owned(),
            backend_ref: "default-ec".to_owned(),
            algorithm: AlgorithmConfig::Es256,
            enabled: true,
        },
    );
    keys.push(
        KeyConfig {
            id: "default-rsa".to_owned(),
            description: "Default RSA-2048 signing key (dev)".to_owned(),
            backend_ref: "default-rsa".to_owned(),
            algorithm: AlgorithmConfig::Rs256,
            enabled: true,
        },
    );
    proof {
        assert(keys.deep_view() =~= default_keys());
    }
    GatewayConfig {
        server: ServerConfig {
            http_addr: "0.0.0.0:8080".to_owned(),
            grpc_addr: "0.0.0.0:50051".to_owned(),
            tls: None,
            shutdown_timeout_secs: 30,
        },
        hsm: HsmConfig::Software(
            SoftwareHsmConfig { key_dir: "/tmp/signing-gateway-keys".to_owned() },
        ),
        keys,
        auth: AuthConfig {
            tokens: StringMap::new(),
            allow_all: true,
            allowed_keys: StringMap::new(),
            allowed_ips: StringMap::new(),
        },
        observability: ObservabilityConfig {
            log_format: LogFormat::Pretty,
            log_level: "info".to_owned(),
            metrics_addr: Some("0.0.0.0:9090".to_owned()),
        },
        trusted_proxies: Vec::new(),
    }
}

/// The address that a request counts as coming from is found with the configured proxies: the peer's
/// own where none of them covers it, and that of a readable header where one does.
pub proof fn clients_are_found_behind_the_configured_proxies<B: HsmBackend>(
    state: &AppState<B>,
    peer: IpAddr,
    header: Seq<char>,
    ip: IpAddr,
)
    requires
        net::read_ip(net::leftmost(header)) == Some(ip),
    ensures
        net::covered(state.config.trusted_proxies.deep_view(), peer) ==> state.client_ip(
            peer,
            Some(header),
        ) == ip,
        !net::covered(state.config.trusted_proxies.deep_view(), peer) ==> state.client_ip(
            peer,
            Some(header),
        ) == peer,
        state.client_ip(peer, None) == peer,
{
}

/// The keys of the development configuration are enabled, stand in files of their own names, and are one
/// for elliptic curves and one for RSA.
pub proof fn default_keys_are_usable(i: int)
    requires
        0 <= i < default_keys().len(),
    ensures
        default_keys().len() == 2,
        default_keys()[i].enabled,
        default_keys()[i].backend_ref == default_keys()[i].id,
        i == 0 ==> default_keys()[i].algorithm == AlgorithmConfig::Es256,
        i == 1 ==> default_keys()[i].algorithm == AlgorithmConfig::Rs256,
{
}

} // verus!
