//! The gateway's configuration, and the algorithms it signs with.

use crate::string_map::StringMap;
use crate::text;
use vstd::prelude::*;
use vstd::utf8::*;

verus! {

/// Top-level gateway configuration.
#[derive(Debug, Clone)]
pub struct GatewayConfig {
    pub server: ServerConfig,
    pub hsm: HsmConfig,
    pub keys: Vec<KeyConfig>,
    pub auth: AuthConfig,
    pub observability: ObservabilityConfig,
    /// Addresses and address ranges of the proxies whose `X-Forwarded-For` header is believed.
    pub trusted_proxies: Vec<String>,
}

#[derive(Debug, Clone)]
pub struct ServerConfig {
    /// HTTP bind address, such as "0.0.0.0:8080".
    pub http_addr: String,
    /// gRPC bind address, such as "0.0.0.0:50051".
    pub grpc_addr: String,
    pub tls: Option<TlsConfig>,
    pub shutdown_timeout_secs: u64,
}

#[derive(Debug, Clone)]
pub struct TlsConfig {
    pub cert_pem_path: String,
    pub key_pem_path: String,
    /// CA certificate for mutual TLS.
    pub ca_pem_path: Option<String>,
}

// ---- HSM ----

#[derive(Debug, Clone, PartialEq, Eq)]
pub enum HsmConfig {
    /// Keys in the process: for development and tests only.
    Software(SoftwareHsmConfig),
    /// A PKCS#11 HSM cluster.
    HsmCluster(HsmClusterConfig),
}

#[derive(Debug, Clone, PartialEq, Eq)]
pub struct SoftwareHsmConfig {
    /// The directory that the PEM private keys are read from.
    pub key_dir: String,
}

#[derive(Debug, PartialEq, Eq)]
pub struct HsmClusterConfig {
    /// Path of the vendor's PKCS#11 shared library.
    pub library_path: String,
    /// The PKCS#11 slot; in HA setups the vendor's virtual slot.
    pub slot_id: u64,
    /// User PIN.
    pub pin: String,
    /// How many PKCS#11 sessions the pool holds.
    pub pool_size: usize,
    /// How often an operation is tried again after a transient HSM error.
    pub retry_attempts: u32,
    /// Delay before each further try, in milliseconds.
    pub retry_delay_ms: u64,
    /// "user" for signing, "so" for the security officer.
    pub login_mode: String,
}

/// What an `HsmClusterConfig` says.
#[verifier::ext_equal]
pub struct HsmClusterConfigView {
    pub library_path: Seq<char>,
    pub slot_id: u64,
    pub pin: Seq<char>,
    pub pool_size: usize,
    pub retry_attempts: u32,
    pub retry_delay_ms: u64,
    pub login_mode: Seq<char>,
}

impl View for HsmClusterConfig {
    type V = HsmClusterConfigView;

    open spec fn view(&self) -> HsmClusterConfigView {
        HsmClusterConfigView {
            library_path: self.library_path@,
            slot_id: self.slot_id,
            pin: self.pin@,
            pool_size: self.pool_size,
            retry_attempts: self.retry_attempts,
            retry_delay_ms: self.retry_delay_ms,
            login_mode: self.login_mode@,
        }
    }
}

impl Clone for HsmClusterConfig {
    fn clone(&self) -> (r: Self)
        ensures
            r@ == self@,
    {
        HsmClusterConfig {
            library_path: self.library_path.clone(),
            slot_id: self.slot_id,
            pin: self.pin.clone(),
            pool_size: self.pool_size,
            retry_attempts: self.retry_attempts,
            retry_delay_ms: self.retry_delay_ms,
            login_mode: self.login_mode.clone(),
        }
    }
}

/// The pool size where the configuration names none.
pub fn default_pool_size() -> (n: usize)
    ensures
        n == 8,
{
    8
}

/// The number of retries where the configuration names none.
pub fn default_retry_attempts() -> (n: u32)
    ensures
        n == 3,
{
    3
}

/// The delay between tries where the configuration names none.
pub fn default_retry_delay_ms() -> (n: u64)
    ensures
        n == 200,
{
    200
}

/// The login mode where the configuration names none.
pub fn default_login_mode() -> (s: String)
    ensures
        s@ == "user"@,
{
    "user".to_owned()
}

// ---- Keys ----

#[derive(Debug)]
pub struct KeyConfig {
    /// The key id that callers use.
    pub id: String,
    pub description: String,
    /// The file's stem under the key directory, or the key's label on the HSM token.
    pub backend_ref: String,
    pub algorithm: AlgorithmConfig,
    pub enabled: bool,
}

impl Clone for KeyConfig {
    fn clone(&self) -> (r: Self)
        ensures
            r@ == self@,
    {
        KeyConfig {
            id: self.id.clone(),
            description: self.description.clone(),
            backend_ref: self.backend_ref.clone(),
            algorithm: self.algorithm,
            enabled: self.enabled,
        }
    }
}

/// What a `KeyConfig` says.
#[verifier::ext_equal]
pub struct KeyConfigView {
    pub id: Seq<char>,
    pub description: Seq<char>,
    pub backend_ref: Seq<char>,
    pub algorithm: AlgorithmConfig,
    pub enabled: bool,
}

impl View for KeyConfig {
    type V = KeyConfigView;

    open spec fn view(&self) -> KeyConfigView {
        KeyConfigView {
            id: self.id@,
            description: self.description@,
            backend_ref: self.backend_ref@,
            algorithm: self.algorithm,
            enabled: self.enabled,
        }
    }
}

impl DeepView for KeyConfig {
    type V = KeyConfigView;

    open spec fn deep_view(&self) -> KeyConfigView {
        self@
    }
}

/// The algorithm of a key, as it is configured.
#[derive(Debug, Clone, Copy, PartialEq, Eq, Structural)]
pub enum AlgorithmConfig {
    Rs256,
    Rs384,
    Rs512,
    Ps256,
    Ps384,
    Ps512,
    Es256,
    Es384,
    Hs256,
    Hs384,
    Hs512,
}

// ---- Callers ----

#[derive(Debug, Clone)]
pub struct AuthConfig {
    /// Bearer tokens and the caller that each belongs to.
    pub tokens: StringMap<String>,
    /// Development only: any caller is accepted, without a token.
    pub allow_all: bool,
    /// The keys that a caller may use. A caller without an entry may use every key.
    pub allowed_keys: StringMap<Vec<String>>,
    /// The addresses and address ranges that a caller may connect from. A caller without an entry
    /// may connect from everywhere.
    pub allowed_ips: StringMap<Vec<String>>,
}

/// What an `AuthConfig` says.
#[verifier::ext_equal]
pub struct AuthView {
    pub tokens: Seq<(Seq<char>, Seq<char>)>,
    pub allow_all: bool,
    pub allowed_keys: Seq<(Seq<char>, Seq<Seq<char>>)>,
    pub allowed_ips: Seq<(Seq<char>, Seq<Seq<char>>)>,
}

impl View for AuthConfig {
    type V = AuthView;

    open spec fn view(&self) -> AuthView {
        AuthView {
            tokens: self.tokens@,
            allow_all: self.allow_all,
            allowed_keys: self.allowed_keys@,
            allowed_ips: self.allowed_ips@,
        }
    }
}

// ---- Observability ----

#[derive(Debug, Clone)]
pub struct ObservabilityConfig {
    pub log_format: LogFormat,
    pub log_level: String,
    pub metrics_addr: Option<String>,
}

#[derive(Debug, Clone, Copy, PartialEq, Eq, Structural)]
pub enum LogFormat {
    Pretty,
    Json,
}

// ---- Algorithms ----

/// A signature algorithm.
#[derive(Debug, Clone, Copy, PartialEq, Eq, Hash, Structural)]
pub enum Algorithm {
    Rs256,
    Rs384,
    Rs512,
    Ps256,
    Ps384,
    Ps512,
    Es256,
    Es384,
    Hs256,
    Hs384,
    Hs512,
}

impl From<AlgorithmConfig> for Algorithm {
    fn from(a: AlgorithmConfig) -> (r: Self) {
        match a {
            AlgorithmConfig::Rs256 => Algorithm::Rs256,
            AlgorithmConfig::Rs384 => Algorithm::Rs384,
            AlgorithmConfig::Rs512 => Algorithm::Rs512,
            AlgorithmConfig::Ps256 => Algorithm::Ps256,
            AlgorithmConfig::Ps384 => Algorithm::Ps384,
            AlgorithmConfig::Ps512 => Algorithm::Ps512,
            AlgorithmConfig::Es256 => Algorithm::Es256,
            AlgorithmConfig::Es384 => Algorithm::Es384,
            AlgorithmConfig::Hs256 => Algorithm::Hs256,
            AlgorithmConfig::Hs384 => Algorithm::Hs384,
            AlgorithmConfig::Hs512 => Algorithm::Hs512,
        }
    }
}

impl vstd::std_specs::convert::FromSpecImpl<AlgorithmConfig> for Algorithm {
    open spec fn obeys_from_spec() -> bool {
        true
    }

    open spec fn from_spec(a: AlgorithmConfig) -> Algorithm {
        configured(a)
    }
}

/// The algorithm that a configuration names.
pub open spec fn configured(a: AlgorithmConfig) -> Algorithm {
    match a {
        AlgorithmConfig::Rs256 => Algorithm::Rs256,
        AlgorithmConfig::Rs384 => Algorithm::Rs384,
        AlgorithmConfig::Rs512 => Algorithm::Rs512,
        AlgorithmConfig::Ps256 => Algorithm::Ps256,
        AlgorithmConfig::Ps384 => Algorithm::Ps384,
        AlgorithmConfig::Ps512 => Algorithm::Ps512,
        AlgorithmConfig::Es256 => Algorithm::Es256,
        AlgorithmConfig::Es384 => Algorithm::Es384,
        AlgorithmConfig::Hs256 => Algorithm::Hs256,
        AlgorithmConfig::Hs384 => Algorithm::Hs384,
        AlgorithmConfig::Hs512 => Algorithm::Hs512,
    }
}

/// The name of an algorithm.
pub open spec fn algorithm_name(a: Algorithm) -> Seq<char> {
    match a {
        Algorithm::Rs256 => "RS256"@,
        Algorithm::Rs384 => "RS384"@,
        Algorithm::Rs512 => "RS512"@,
        Algorithm::Ps256 => "PS256"@,
        Algorithm::Ps384 => "PS384"@,
        Algorithm::Ps512 => "PS512"@,
        Algorithm::Es256 => "ES256"@,
        Algorithm::Es384 => "ES384"@,
        Algorithm::Hs256 => "HS256"@,
        Algorithm::Hs384 => "HS384"@,
        Algorithm::Hs512 => "HS512"@,
    }
}

/// What tells two algorithms apart in their names: the first and the third character.
spec fn name_marks(a: Algorithm) -> (char, char) {
    match a {
        Algorithm::Rs256 => ('R', '2'),
        Algorithm::Rs384 => ('R', '3'),
        Algorithm::Rs512 => ('R', '5'),
        Algorithm::Ps256 => ('P', '2'),
        Algorithm::Ps384 => ('P', '3'),
        Algorithm::Ps512 => ('P', '5'),
        Algorithm::Es256 => ('E', '2'),
        Algorithm::Es384 => ('E', '3'),
        Algorithm::Hs256 => ('H', '2'),
        Algorithm::Hs384 => ('H', '3'),
        Algorithm::Hs512 => ('H', '5'),
    }
}

proof fn lemma_name_marks(a: Algorithm)
    ensures
        algorithm_name(a)[0] == name_marks(a).0,
        algorithm_name(a)[2] == name_marks(a).1,
{
    reveal_strlit("RS256");
    reveal_strlit("RS384");
    reveal_strlit("RS512");
    reveal_strlit("PS256");
    reveal_strlit("PS384");
    reveal_strlit("PS512");
    reveal_strlit("ES256");
    reveal_strlit("ES384");
    reveal_strlit("HS256");
    reveal_strlit("HS384");
    reveal_strlit("HS512");
}

/// No two algorithms share a name.
pub proof fn algorithm_names_differ(a: Algorithm, b: Algorithm)
    requires
        algorithm_name(a) == algorithm_name(b),
    ensures
        a == b,
{
    lemma_name_marks(a);
    lemma_name_marks(b);
}

/// The names are in upper case.
pub proof fn algorithm_names_are_upper_case(a: Algorithm)
    ensures
        is_ascii_chars(algorithm_name(a)),
        algorithm_name(a).map_values(|c: char| text::ascii_upper(c)) == algorithm_name(a),
{
    reveal_strlit("RS256");
    reveal_strlit("RS384");
    reveal_strlit("RS512");
    reveal_strlit("PS256");
    reveal_strlit("PS384");
    reveal_strlit("PS512");
    reveal_strlit("ES256");
    reveal_strlit("ES384");
    reveal_strlit("HS256");
    reveal_strlit("HS384");
    reveal_strlit("HS512");
    let name = algorithm_name(a);
    assert(name.len() == 5);
    assert forall|i: int| 0 <= i < 5 implies text::ascii_upper(#[trigger] name[i]) == name[i]
        && name[i] <= '\u{7f}' by {
        assert(i == 0 || i == 1 || i == 2 || i == 3 || i == 4);
    }
    assert(name.map_values(|c: char| text::ascii_upper(c)) =~= name);
}

/// The algorithm with that name.
pub open spec fn algorithm_named(name: Seq<char>) -> Option<Algorithm> {
    if name == "RS256"@ {
        Some(Algorithm::Rs256)
    } else if name == "RS384"@ {
        Some(Algorithm::Rs384)
    } else if name == "RS512"@ {
        Some(Algorithm::Rs512)
    } else if name == "PS256"@ {
        Some(Algorithm::Ps256)
    } else if name == "PS384"@ {
        Some(Algorithm::Ps384)
    } else if name == "PS512"@ {
        Some(Algorithm::Ps512)
    } else if name == "ES256"@ {
        Some(Algorithm::Es256)
    } else if name == "ES384"@ {
        Some(Algorithm::Es384)
    } else if name == "HS256"@ {
        Some(Algorithm::Hs256)
    } else if name == "HS384"@ {
        Some(Algorithm::Hs384)
    } else if name == "HS512"@ {
        Some(Algorithm::Hs512)
    } else {
        None
    }
}

/// An algorithm is found under its name, and under no other.
pub proof fn algorithm_is_found_by_name(a: Algorithm, name: Seq<char>)
    ensures
        algorithm_named(name) == Some(a) <==> name == algorithm_name(a),
{
    if let Some(b) = algorithm_named(name) {
        assert(algorithm_name(b) == name);
        if name == algorithm_name(a) {
            algorithm_names_differ(a, b);
        }
    }
}

/// Every configured algorithm is an algorithm of its own, and each algorithm can be configured.
pub proof fn configured_is_one_to_one(a: AlgorithmConfig, b: AlgorithmConfig, c: Algorithm)
    ensures
        configured(a) == configured(b) ==> a == b,
        exists|d: AlgorithmConfig| configured(d) == c,
{
    let d = match c {
        Algorithm::Rs256 => AlgorithmConfig::Rs256,
        Algorithm::Rs384 => AlgorithmConfig::Rs384,
        Algorithm::Rs512 => AlgorithmConfig::Rs512,
        Algorithm::Ps256 => AlgorithmConfig::Ps256,
        Algorithm::Ps384 => AlgorithmConfig::Ps384,
        Algorithm::Ps512 => AlgorithmConfig::Ps512,
        Algorithm::Es256 => AlgorithmConfig::Es256,
        Algorithm::Es384 => AlgorithmConfig::Es384,
        Algorithm::Hs256 => AlgorithmConfig::Hs256,
        Algorithm::Hs384 => AlgorithmConfig::Hs384,
        Algorithm::Hs512 => AlgorithmConfig::Hs512,
    };
    assert(configured(d) == c);
}

impl Algorithm {
    /// The algorithm's name.
    pub fn to_string(&self) -> (s: String)
        ensures
            s@ == algorithm_name(*self),
    {
        let name = match self {
            Algorithm::Rs256 => "RS256",
            Algorithm::Rs384 => "RS384",
            Algorithm::Rs512 => "RS512",
            Algorithm::Ps256 => "PS256",
            Algorithm::Ps384 => "PS384",
            Algorithm::Ps512 => "PS512",
            Algorithm::Es256 => "ES256",
            Algorithm::Es384 => "ES384",
            Algorithm::Hs256 => "HS256",
            Algorithm::Hs384 => "HS384",
            Algorithm::Hs512 => "HS512",
        };
        name.to_owned()
    }

    /// Does the algorithm use RSA keys?
    pub open spec fn is_rsa(self) -> bool {
        match self {
            Algorithm::Rs256 | Algorithm::Rs384 | Algorithm::Rs512 | Algorithm::Ps256
            | Algorithm::Ps384 | Algorithm::Ps512 => true,
            _ => false,
        }
    }

    /// Does the algorithm use elliptic-curve keys?
    pub open spec fn is_ec(self) -> bool {
        self is Es256 || self is Es384
    }

    /// Does the algorithm use a shared secret?
    pub open spec fn is_hmac(self) -> bool {
        self is Hs256 || self is Hs384 || self is Hs512
    }
}

// ---- What holds of algorithms ----

/// An algorithm uses one kind of key.
pub proof fn algorithms_have_one_kind_of_key(a: Algorithm)
    ensures
        a.is_rsa() || a.is_ec() || a.is_hmac(),
        !(a.is_rsa() && a.is_ec()),
        !(a.is_rsa() && a.is_hmac()),
        !(a.is_ec() && a.is_hmac()),
{
}

/// The name of an algorithm says what it signs with: R for RSA with PKCS#1 padding, P for RSA with PSS
/// padding, E for elliptic curves, H for a shared secret. An S follows, and three digits.
pub proof fn names_tell_the_kind_of_key(a: Algorithm)
    ensures
        algorithm_name(a).len() == 5,
        algorithm_name(a)[0] == 'R' || algorithm_name(a)[0] == 'P' <==> a.is_rsa(),
        algorithm_name(a)[0] == 'P' <==> a is Ps256 || a is Ps384 || a is Ps512,
        algorithm_name(a)[0] == 'E' <==> a.is_ec(),
        algorithm_name(a)[0] == 'H' <==> a.is_hmac(),
        algorithm_name(a)[1] == 'S',
{
    reveal_strlit("RS256");
    reveal_strlit("RS384");
    reveal_strlit("RS512");
    reveal_strlit("PS256");
    reveal_strlit("PS384");
    reveal_strlit("PS512");
    reveal_strlit("ES256");
    reveal_strlit("ES384");
    reveal_strlit("HS256");
    reveal_strlit("HS384");
    reveal_strlit("HS512");
}

/// The algorithm pads RSA signatures with a random salt, as the names with a P say.
pub open spec fn is_salted(algorithm: Algorithm) -> bool {
    algorithm_name(algorithm)[0] == 'P'
}

/// A key is used with the algorithm that it is configured with.
pub proof fn configured_algorithms_keep_their_meaning(a: AlgorithmConfig)
    ensures
        configured(a) is Rs256 <==> a is Rs256,
        configured(a) is Rs384 <==> a is Rs384,
        configured(a) is Rs512 <==> a is Rs512,
        configured(a) is Ps256 <==> a is Ps256,
        configured(a) is Ps384 <==> a is Ps384,
        configured(a) is Ps512 <==> a is Ps512,
        configured(a) is Es256 <==> a is Es256,
        configured(a) is Es384 <==> a is Es384,
        configured(a) is Hs256 <==> a is Hs256,
        configured(a) is Hs384 <==> a is Hs384,
        configured(a) is Hs512 <==> a is Hs512,
{
}

} // verus!
