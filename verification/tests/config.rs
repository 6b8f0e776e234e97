use signing_gateway::config::{
    default_login_mode, default_pool_size, default_retry_attempts, default_retry_delay_ms, Algorithm,
    AlgorithmConfig, HsmConfig, LogFormat,
};
use signing_gateway::http::handlers::{find_algorithm, parse_algorithm};
use signing_gateway::state::{default_config, version};

const ALGORITHMS: [(AlgorithmConfig, Algorithm, &str); 11] = [
    (AlgorithmConfig::Rs256, Algorithm::Rs256, "RS256"),
    (AlgorithmConfig::Rs384, Algorithm::Rs384, "RS384"),
    (AlgorithmConfig::Rs512, Algorithm::Rs512, "RS512"),
    (AlgorithmConfig::Ps256, Algorithm::Ps256, "PS256"),
    (AlgorithmConfig::Ps384, Algorithm::Ps384, "PS384"),
    (AlgorithmConfig::Ps512, Algorithm::Ps512, "PS512"),
    (AlgorithmConfig::Es256, Algorithm::Es256, "ES256"),
    (AlgorithmConfig::Es384, Algorithm::Es384, "ES384"),
    (AlgorithmConfig::Hs256, Algorithm::Hs256, "HS256"),
    (AlgorithmConfig::Hs384, Algorithm::Hs384, "HS384"),
    (AlgorithmConfig::Hs512, Algorithm::Hs512, "HS512"),
];

#[test]
fn configured_algorithms_keep_their_name() {
    for (configured, algorithm, name) in ALGORITHMS {
        assert_eq!(Algorithm::from(configured), algorithm);
        assert_eq!(algorithm.to_string(), name);
    }
}

#[test]
fn algorithm_names_are_read_in_any_case() {
    for (_, algorithm, name) in ALGORITHMS {
        assert_eq!(parse_algorithm(name), Ok(algorithm));
        assert_eq!(parse_algorithm(&name.to_lowercase()), Ok(algorithm));
    }
    assert_eq!(parse_algorithm("eS256"), Ok(Algorithm::Es256));
}

#[test]
fn names_are_found_in_upper_case_only() {
    for (_, algorithm, name) in ALGORITHMS {
        assert_eq!(find_algorithm(name), Ok(algorithm));
    }
    assert_eq!(find_algorithm("es256"), Err("Unknown algorithm: es256".to_string()));
}

#[test]
fn unknown_algorithm_is_told_in_upper_case() {
    assert_eq!(parse_algorithm("es512"), Err("Unknown algorithm: ES512".to_string()));
    assert_eq!(parse_algorithm(""), Err("Unknown algorithm: ".to_string()));
    assert_eq!(parse_algorithm("straße"), Err("Unknown algorithm: STRASSE".to_string()));
}

#[test]
fn cluster_defaults() {
    assert_eq!(default_pool_size(), 8);
    assert_eq!(default_retry_attempts(), 3);
    assert_eq!(default_retry_delay_ms(), 200);
    assert_eq!(default_login_mode(), "user");
}

#[test]
fn development_configuration() {
    let cfg = default_config();
    assert_eq!(cfg.server.http_addr, "0.0.0.0:8080");
    assert_eq!(cfg.server.grpc_addr, "0.0.0.0:50051");
    assert!(cfg.server.tls.is_none());
    assert_eq!(cfg.server.shutdown_timeout_secs, 30);
    assert!(matches!(&cfg.hsm, HsmConfig::Software(sw) if sw.key_dir == "/tmp/signing-gateway-keys"));
    assert_eq!(cfg.keys.len(), 2);
    assert_eq!(cfg.keys[0].id, "default-ec");
    assert_eq!(cfg.keys[0].description, "Default EC P-256 signing key (dev)");
    assert_eq!(cfg.keys[0].backend_ref, "default-ec");
    assert_eq!(cfg.keys[0].algorithm, AlgorithmConfig::Es256);
    assert!(cfg.keys[0].enabled);
    assert_eq!(cfg.keys[1].id, "default-rsa");
    assert_eq!(cfg.keys[1].algorithm, AlgorithmConfig::Rs256);
    assert!(cfg.auth.allow_all);
    assert_eq!(cfg.auth.tokens.len(), 0);
    assert_eq!(cfg.auth.allowed_keys.len(), 0);
    assert_eq!(cfg.auth.allowed_ips.len(), 0);
    assert_eq!(cfg.observability.log_format, LogFormat::Pretty);
    assert_eq!(cfg.observability.log_level, "info");
    assert_eq!(cfg.observability.metrics_addr.as_deref(), Some("0.0.0.0:9090"));
    assert!(cfg.trusted_proxies.is_empty());
    assert_eq!(version(), "0.1.0");
}

#[test]
fn configuration_can_be_cloned() {
    let mut cfg = default_config();
    cfg.auth.tokens.insert("t".to_string(), "service-a".to_string());
    let copy = cfg.clone();
    assert_eq!(copy.auth.tokens.get("t").map(String::as_str), Some("service-a"));
    assert_eq!(copy.keys[1].backend_ref, "default-rsa");
}
